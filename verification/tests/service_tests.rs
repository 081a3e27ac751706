use faber::config::Config;
use faber::error::FaberError;
use faber::ident::generate_random_string;
use faber::service::HealthResponse;
use faber::text::{u64_to_string, parse_dec_u64, chars_of_str};

#[test]
fn health_reports_healthy() {
    assert_eq!(HealthResponse::healthy().status, "healthy");
}

#[test]
fn config_defaults_apply_when_unset() {
    let c = Config::from_parts(None, None, None).unwrap();
    assert_eq!(c.port, 3000);
    assert_eq!(c.host, "0.0.0.0");
    assert_eq!(c.max_concurrency, 10);
    assert_eq!(Config::default(), c);
}

#[test]
fn config_parses_supplied_values() {
    let c = Config::from_parts(Some("8080"), Some("127.0.0.1"), Some("32")).unwrap();
    assert_eq!(c.port, 8080);
    assert_eq!(c.host, "127.0.0.1");
    assert_eq!(c.max_concurrency, 32);
}

#[test]
fn config_rejects_bad_numbers() {
    assert!(Config::from_parts(Some("eighty"), None, None).is_err());
    assert!(Config::from_parts(Some("70000"), None, None).is_err());
    assert!(Config::from_parts(None, None, Some("-3")).is_err());
}

#[test]
fn error_messages_carry_their_kind() {
    let e = FaberError::Mount { details: "proc".to_string() };
    assert_eq!(e.message(), "Failed to mount: proc");
    let g = FaberError::Generic { message: "oops".to_string() };
    assert_eq!(g.message(), "General error: oops");
}

#[test]
fn random_identifiers_are_alphanumeric() {
    let id = generate_random_string(16);
    assert_eq!(id.len(), 16);
    assert!(id.chars().all(|c| c.is_ascii_alphanumeric()));
    assert_eq!(generate_random_string(0).len(), 0);
}

#[test]
fn decimal_rendering_and_parsing() {
    assert_eq!(u64_to_string(0), "0");
    assert_eq!(u64_to_string(1234), "1234");
    assert_eq!(u64_to_string(u64::MAX), "18446744073709551615");
    assert_eq!(parse_dec_u64(&chars_of_str("1234")), Some(1234));
    assert_eq!(parse_dec_u64(&chars_of_str("18446744073709551615")), Some(u64::MAX));
    assert_eq!(parse_dec_u64(&chars_of_str("18446744073709551616")), None);
    assert_eq!(parse_dec_u64(&chars_of_str("")), None);
    assert_eq!(parse_dec_u64(&chars_of_str("12a")), None);
}
