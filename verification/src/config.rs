//! Service configuration, parsed from optional environment values.

use vstd::prelude::*;
use crate::error::FaberError;
use crate::text::{all_dec_digits, chars_of_str, dec_value, parse_dec_u64};

verus! {

/// Listener and concurrency settings of the service.
#[derive(Debug, PartialEq, Eq)]
pub struct Config {
    pub port: u16,
    pub host: String,
    pub max_concurrency: usize,
}

impl Default for Config {
    /// The defaults: port 3000 on all interfaces, ten requests in flight.
    fn default() -> (r: Self)
        ensures
            r.port == 3000,
            r.host@ == "0.0.0.0"@,
            r.max_concurrency == 10,
    {
        Config { port: 3000, host: "0.0.0.0".to_owned(), max_concurrency: 10 }
    }
}

/// Whether a string is a decimal number that fits the given bound.
pub open spec fn fits_dec(s: Seq<char>, bound: nat) -> bool {
    s.len() > 0 && all_dec_digits(s) && dec_value(s) <= bound
}

impl Config {
    /// Build the configuration from the raw environment values, each `None`
    /// when the variable is unset. An unset value falls back to its
    /// default; a set value must be a decimal number in range, else the
    /// whole configuration is rejected.
    pub fn from_parts(
        port: Option<&str>,
        host: Option<&str>,
        max_concurrency: Option<&str>,
    ) -> (r: Result<Config, FaberError>)
        ensures
            r is Ok <==> (match port {
                Some(p) => fits_dec(p@, u16::MAX as nat),
                None => true,
            } && match max_concurrency {
                Some(m) => fits_dec(m@, usize::MAX as nat),
                None => true,
            }),
            match r {
                Ok(c) => {
                    &&& c.port as nat == (match port {
                        Some(p) => dec_value(p@),
                        None => 3000,
                    })
                    &&& c.host@ == (match host {
                        Some(h) => h@,
                        None => "0.0.0.0"@,
                    })
                    &&& c.max_concurrency as nat == (match max_concurrency {
                        Some(m) => dec_value(m@),
                        None => 10,
                    })
                },
                Err(e) => e is Generic,
            },
    {
        let port_val: u16 = match port {
            Some(p) => {
                let chars = chars_of_str(p);
                match parse_dec_u64(&chars) {
                    Some(v) => {
                        if v <= u16::MAX as u64 {
                            v as u16
                        } else {
                            return Err(FaberError::Generic {
                                message: "invalid port value".to_owned(),
                            });
                        }
                    },
                    None => {
                        return Err(FaberError::Generic {
                            message: "invalid port value".to_owned(),
                        });
                    },
                }
            },
            None => 3000,
        };
        let host_val: String = match host {
            Some(h) => h.to_owned(),
            None => "0.0.0.0".to_owned(),
        };
        let conc_val: usize = match max_concurrency {
            Some(m) => {
                let chars = chars_of_str(m);
                match parse_dec_u64(&chars) {
                    Some(v) => {
                        if v <= usize::MAX as u64 {
                            v as usize
                        } else {
                            return Err(FaberError::Generic {
                                message: "invalid max concurrency value".to_owned(),
                            });
                        }
                    },
                    None => {
                        return Err(FaberError::Generic {
                            message: "invalid max concurrency value".to_owned(),
                        });
                    },
                }
            },
            None => 10,
        };
        Ok(Config { port: port_val, host: host_val, max_concurrency: conc_val })
    }
}

} // verus!
