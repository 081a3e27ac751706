use faber::cache::ExecutionCache;
use faber::result::{ExecutionStepResult, TaskGroupResult, TaskResult, TaskResultStats};
use faber::task::{ExecutionStep, Task, TaskGroup};

fn group(cmd: &str) -> TaskGroup {
    vec![ExecutionStep::Single(Task {
        cmd: cmd.to_string(),
        args: None,
        env: None,
        stdin: None,
        files: None,
        working_dir: None,
    })]
}

fn result(stdout: &str) -> TaskGroupResult {
    vec![ExecutionStepResult::Single(TaskResult::Completed {
        stdout: stdout.to_string(),
        stderr: String::new(),
        exit_code: 0,
        stats: TaskResultStats::default(),
    })]
}

#[test]
fn fresh_cache_misses() {
    let cache = ExecutionCache::new();
    assert!(cache.try_get(&group("echo")).is_none());
}

#[test]
fn identical_groups_hit_the_same_entry() {
    let mut cache = ExecutionCache::new();
    let first = group("echo");
    cache.cache_result(&first, result("hello\n"));
    // a separately built but identical group reads the same response
    let second = group("echo");
    let hit = cache.try_get(&second).expect("the identical group must hit");
    assert_eq!(hit, result("hello\n"));
}

#[test]
fn different_groups_do_not_collide() {
    let mut cache = ExecutionCache::new();
    cache.cache_result(&group("echo"), result("a"));
    assert!(cache.try_get(&group("true")).is_none());
    cache.cache_result(&group("true"), result("b"));
    assert_eq!(cache.try_get(&group("echo")).unwrap(), result("a"));
    assert_eq!(cache.try_get(&group("true")).unwrap(), result("b"));
}

#[test]
fn second_store_wins() {
    let mut cache = ExecutionCache::new();
    cache.cache_result(&group("echo"), result("old"));
    cache.cache_result(&group("echo"), result("new"));
    assert_eq!(cache.try_get(&group("echo")).unwrap(), result("new"));
}
