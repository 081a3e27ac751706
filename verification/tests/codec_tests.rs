use faber::codec::{
    decode_group_result, decode_runtime_result, decode_task_group, encode_group_result,
    encode_runtime_result, encode_task_group,
};
use faber::result::{
    ExecutionStepResult, RuntimeResult, TaskGroupResult, TaskResult, TaskResultStats,
};
use faber::service::validate_task_group;
use faber::task::{ExecutionStep, Task, TaskGroup};

fn simple_task(cmd: &str, args: Option<Vec<&str>>) -> Task {
    Task {
        cmd: cmd.to_string(),
        args: args.map(|v| v.into_iter().map(|s| s.to_string()).collect()),
        env: None,
        stdin: None,
        files: None,
        working_dir: None,
    }
}

#[test]
fn encode_single_step_matches_wire_example() {
    let group: TaskGroup = vec![ExecutionStep::Single(simple_task("echo", Some(vec!["hello"])))];
    let encoded = encode_task_group(&group);
    assert_eq!(encoded, r#"[{"cmd":"echo","args":["hello"]}]"#);
}

#[test]
fn encode_structural_variants() {
    let group: TaskGroup = vec![
        ExecutionStep::Single(simple_task("echo", Some(vec!["hello"]))),
        ExecutionStep::Parallel(vec![
            simple_task("sleep", Some(vec!["1"])),
            simple_task("sleep", Some(vec!["1"])),
        ]),
    ];
    let encoded = encode_task_group(&group);
    assert_eq!(
        encoded,
        r#"[{"cmd":"echo","args":["hello"]},[{"cmd":"sleep","args":["1"]},{"cmd":"sleep","args":["1"]}]]"#
    );
}

#[test]
fn round_trip_task_group() {
    let full = Task {
        cmd: "python3".to_string(),
        args: Some(vec!["-c".to_string(), "print(1)".to_string()]),
        env: Some(vec![
            ("PATH".to_string(), "/bin".to_string()),
            ("HOME".to_string(), "/tmp".to_string()),
        ]),
        stdin: Some("line one\nline two\t\"quoted\"\\\u{1}".to_string()),
        files: Some(vec![("/faber/main.py".to_string(), "print(2)".to_string())]),
        working_dir: Some("/faber".to_string()),
    };
    let group: TaskGroup = vec![
        ExecutionStep::Single(full),
        ExecutionStep::Parallel(vec![]),
        ExecutionStep::Parallel(vec![simple_task("true", None)]),
    ];
    let encoded = encode_task_group(&group);
    let decoded = decode_task_group(&encoded).expect("round trip must parse");
    assert_eq!(decoded, group);
}

#[test]
fn decode_wire_example() {
    let text = r#"[{"cmd":"echo","args":["hello"]},[{"cmd":"sleep","args":["1"]},{"cmd":"sleep","args":["1"]}]]"#;
    let group = decode_task_group(text).expect("the wire example parses");
    assert_eq!(group.len(), 2);
    match &group[0] {
        ExecutionStep::Single(t) => {
            assert_eq!(t.cmd, "echo");
            assert_eq!(t.args, Some(vec!["hello".to_string()]));
        }
        _ => panic!("first step must be single"),
    }
    match &group[1] {
        ExecutionStep::Parallel(ts) => assert_eq!(ts.len(), 2),
        _ => panic!("second step must be parallel"),
    }
}

#[test]
fn decode_accepts_whitespace_and_null_options() {
    let text = " [ { \"cmd\" : \"a\" , \"args\" : null } ] ";
    let group = decode_task_group(text).expect("whitespace and nulls are fine");
    assert_eq!(group.len(), 1);
    match &group[0] {
        ExecutionStep::Single(t) => {
            assert_eq!(t.cmd, "a");
            assert_eq!(t.args, None);
        }
        _ => panic!("expected a single step"),
    }
}

#[test]
fn decode_empty_group_is_valid_json_but_rejected_at_boundary() {
    let group = decode_task_group("[]").expect("an empty array parses");
    assert_eq!(group.len(), 0);
    assert!(!validate_task_group(&group));
    let nonempty = decode_task_group(r#"[{"cmd":"x"}]"#).unwrap();
    assert!(validate_task_group(&nonempty));
}

#[test]
fn decode_empty_parallel_step_is_valid() {
    let group = decode_task_group("[[]]").expect("an empty parallel step is valid");
    assert_eq!(group.len(), 1);
    assert_eq!(group[0], ExecutionStep::Parallel(vec![]));
}

#[test]
fn decode_rejects_bad_shapes() {
    assert!(decode_task_group("").is_err());
    assert!(decode_task_group("5").is_err());
    assert!(decode_task_group("[5]").is_err());
    assert!(decode_task_group(r#"[{"cmd":""}]"#).is_err());
    assert!(decode_task_group(r#"[{"args":["x"]}]"#).is_err());
    assert!(decode_task_group(r#"[{"cmd":"x","cmd":"y"}]"#).is_err());
    assert!(decode_task_group(r#"[{"cmd":"x","env":{"A":"1","A":"2"}}]"#).is_err());
    assert!(decode_task_group(r#"[{"cmd":"x"}"#).is_err());
    assert!(decode_task_group(r#"[true]"#).is_err());
}

#[test]
fn decode_ignores_unknown_members() {
    // unknown members are skipped, whatever value they carry
    let group = decode_task_group(r#"[{"cmd":"x","bogus":1,"more":[{"deep":null}]}]"#).unwrap();
    match &group[0] {
        ExecutionStep::Single(t) => {
            assert_eq!(t.cmd, "x");
            assert_eq!(t.args, None);
        }
        _ => panic!("expected a single step"),
    }
    let text = r#"[{"stdout":"a","stderr":"","exit_code":0,"stats":{"memory_peak_bytes":1,"cpu_usage_usec":2,"execution_time_ms":3,"pids_peak":4,"extra":true},"note":"x"}]"#;
    let results = decode_group_result(text).unwrap();
    match &results[0] {
        ExecutionStepResult::Single(TaskResult::Completed { stdout, stats, .. }) => {
            assert_eq!(stdout, "a");
            assert_eq!(stats.pids_peak, 4);
        }
        _ => panic!("expected a completed result"),
    }
}

#[test]
fn decode_result_lets_the_last_member_win() {
    let text = r#"[{"stdout":"first","stdout":"second","stderr":"","exit_code":0,"stats":{"memory_peak_bytes":0,"cpu_usage_usec":0,"execution_time_ms":0,"pids_peak":0}}]"#;
    let results = decode_group_result(text).unwrap();
    match &results[0] {
        ExecutionStepResult::Single(TaskResult::Completed { stdout, .. }) => {
            assert_eq!(stdout, "second");
        }
        _ => panic!("expected a completed result"),
    }
    // an error member makes the result a failure even beside exit data
    let text2 = r#"[{"stdout":"a","stderr":"","exit_code":0,"error":"boom","stats":{"memory_peak_bytes":0,"cpu_usage_usec":0,"execution_time_ms":0,"pids_peak":0}}]"#;
    match &decode_group_result(text2).unwrap()[0] {
        ExecutionStepResult::Single(TaskResult::Failed { error, .. }) => {
            assert_eq!(error, "boom");
        }
        _ => panic!("an error member marks a failure"),
    }
}

#[test]
fn decode_unicode_escapes() {
    let group = decode_task_group(r#"[{"cmd":"x","stdin":"Aé\n"}]"#).unwrap();
    match &group[0] {
        ExecutionStep::Single(t) => assert_eq!(t.stdin, Some("A\u{e9}\n".to_string())),
        _ => panic!("expected a single step"),
    }
    // a surrogate pair of escapes combines into one character
    let group = decode_task_group(r#"[{"cmd":"x","stdin":"\uD83D\uDE00"}]"#).unwrap();
    match &group[0] {
        ExecutionStep::Single(t) => assert_eq!(t.stdin, Some("\u{1F600}".to_string())),
        _ => panic!("expected a single step"),
    }
    // a lone surrogate is rejected
    assert!(decode_task_group(r#"[{"cmd":"x","stdin":"\uD83D"}]"#).is_err());
    assert!(decode_task_group(r#"[{"cmd":"x","stdin":"\uDE00"}]"#).is_err());
}

fn stats(n: u64) -> TaskResultStats {
    TaskResultStats {
        memory_peak_bytes: n,
        cpu_usage_usec: n + 1,
        execution_time_ms: n + 2,
        pids_peak: n + 3,
    }
}

#[test]
fn round_trip_group_result() {
    let results: TaskGroupResult = vec![
        ExecutionStepResult::Single(TaskResult::Completed {
            stdout: "hi\n".to_string(),
            stderr: "".to_string(),
            exit_code: 0,
            stats: stats(10),
        }),
        ExecutionStepResult::Parallel(vec![
            TaskResult::Completed {
                stdout: "".to_string(),
                stderr: "boom".to_string(),
                exit_code: -1,
                stats: stats(0),
            },
            TaskResult::Failed { error: "task exceeded timeout".to_string(), stats: stats(7) },
        ]),
    ];
    let encoded = encode_group_result(&results);
    let decoded = decode_group_result(&encoded).expect("round trip must parse");
    assert_eq!(decoded, results);
}

#[test]
fn result_failure_is_marked_by_error_member() {
    let failed: TaskGroupResult = vec![ExecutionStepResult::Single(TaskResult::Failed {
        error: "spawn failed".to_string(),
        stats: TaskResultStats::default(),
    })];
    let encoded = encode_group_result(&failed);
    assert!(encoded.contains("\"error\""));
    assert!(!encoded.contains("\"exit_code\""));
    let completed: TaskGroupResult = vec![ExecutionStepResult::Single(TaskResult::Completed {
        stdout: String::new(),
        stderr: String::new(),
        exit_code: 7,
        stats: TaskResultStats::default(),
    })];
    let encoded2 = encode_group_result(&completed);
    assert!(encoded2.contains("\"exit_code\":7"));
    assert!(!encoded2.contains("\"error\""));
}

#[test]
fn round_trip_runtime_result() {
    let ok = RuntimeResult::Success(vec![ExecutionStepResult::Single(TaskResult::Completed {
        stdout: "x".to_string(),
        stderr: String::new(),
        exit_code: 0,
        stats: stats(1),
    })]);
    let encoded = encode_runtime_result(&ok);
    assert_eq!(decode_runtime_result(&encoded).unwrap(), ok);

    let bad = RuntimeResult::ContainerSetupFailed { error: "mount failed".to_string() };
    let encoded2 = encode_runtime_result(&bad);
    assert!(encoded2.starts_with(r#"{"ContainerSetupFailed""#));
    assert_eq!(decode_runtime_result(&encoded2).unwrap(), bad);
}
