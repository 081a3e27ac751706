use faber::cgroup::{CgroupConfigBuilder, TaskCgroup};
use faber::container::ContainerConfigBuilder;
use faber::result::{TaskResult, TaskResultStats};
use faber::runtime::{
    GroupRun, HardeningStep, Runtime, RuntimeBuilder, TaskPhase, TaskRun, WaitDecision,
    assemble_stats, build_command, failed_result, panicked_result, pre_exec_plan, timeout_error,
    wait_decision,
};
use faber::task::{ExecutionStep, Task, TaskGroup};

fn task(cmd: &str) -> Task {
    Task { cmd: cmd.to_string(), args: None, env: None, stdin: None, files: None, working_dir: None }
}

#[test]
fn build_command_injects_default_path() {
    let c = build_command(&task("/bin/echo"));
    assert_eq!(c.program, "/bin/echo");
    assert_eq!(
        c.env,
        vec![(
            "PATH".to_string(),
            "/usr/local/sbin:/usr/local/bin:/usr/sbin:/usr/bin:/sbin:/bin".to_string()
        )]
    );
}

#[test]
fn build_command_keeps_supplied_path() {
    let mut t = task("/bin/echo");
    t.env = Some(vec![("PATH".to_string(), "/opt/bin".to_string())]);
    let c = build_command(&t);
    assert_eq!(c.env, vec![("PATH".to_string(), "/opt/bin".to_string())]);
}

#[test]
fn build_command_passes_everything_through() {
    let mut t = task("/bin/cat");
    t.args = Some(vec!["-".to_string()]);
    t.stdin = Some("xyz".to_string());
    t.files = Some(vec![("/faber/a".to_string(), "b".to_string())]);
    t.working_dir = Some("/faber".to_string());
    let c = build_command(&t);
    assert_eq!(c.args, vec!["-".to_string()]);
    assert_eq!(c.stdin, Some("xyz".to_string()));
    assert_eq!(c.files, vec![("/faber/a".to_string(), "b".to_string())]);
    assert_eq!(c.working_dir, Some("/faber".to_string()));
}

#[test]
fn hardening_pipeline_ends_with_capability_flush() {
    let plan = pre_exec_plan();
    assert_eq!(
        plan,
        vec![
            HardeningStep::UnshareMountNamespace,
            HardeningStep::MaskPaths,
            HardeningStep::SetGid(65534),
            HardeningStep::SetUid(65534),
            HardeningStep::ClearEffectiveCapabilities,
            HardeningStep::ClearPermittedCapabilities,
            HardeningStep::ClearInheritableCapabilities,
        ]
    );
}

#[test]
fn wait_decision_polls_kills_and_completes() {
    assert_eq!(wait_decision(true, 0, 1000), WaitDecision::Completed);
    assert_eq!(wait_decision(true, 5000, 1000), WaitDecision::Completed);
    assert_eq!(wait_decision(false, 1000, 1000), WaitDecision::PollAgain);
    assert_eq!(wait_decision(false, 1001, 1000), WaitDecision::KillAndTimeout);
    assert_eq!(wait_decision(false, 0, 0), WaitDecision::PollAgain);
}

#[test]
fn group_run_mirrors_step_shapes() {
    let group: TaskGroup = vec![
        ExecutionStep::Single(task("a")),
        ExecutionStep::Parallel(vec![task("b"), task("c")]),
        ExecutionStep::Parallel(vec![]),
    ];
    let mut run = GroupRun::new(group);
    assert!(!run.is_done());
    run.record_outcomes(vec![panicked_result()]);
    run.record_outcomes(vec![panicked_result(), panicked_result()]);
    run.record_outcomes(vec![]);
    assert!(run.is_done());
    let results = run.into_result();
    assert_eq!(results.len(), 3);
    match &results[0] {
        faber::result::ExecutionStepResult::Single(_) => {}
        _ => panic!("a single step yields a single result"),
    }
    match &results[1] {
        faber::result::ExecutionStepResult::Parallel(rs) => assert_eq!(rs.len(), 2),
        _ => panic!("a parallel step yields a parallel result"),
    }
    match &results[2] {
        faber::result::ExecutionStepResult::Parallel(rs) => assert_eq!(rs.len(), 0),
        _ => panic!("an empty parallel step yields an empty result list"),
    }
}

#[test]
fn task_run_success_path_cleans_up_its_cgroup() {
    let mut run = TaskRun::start(5000);
    assert_eq!(run.phase, TaskPhase::Ready);
    run.cgroup_created(TaskCgroup {
        id: "B".repeat(16),
        path: "/sys/fs/cgroup/faber/task-test".to_string(),
    });
    run.spawned();
    run.attached();
    run.waiting();
    run.exited();
    run.measured();
    let to_remove = run.cleanup();
    assert_eq!(run.phase, TaskPhase::CleanedUp);
    assert_eq!(to_remove, Some("/sys/fs/cgroup/faber/task-test".to_string()));
}

#[test]
fn task_run_failure_path_still_cleans_up() {
    let mut run = TaskRun::start(5000);
    run.cgroup_created(TaskCgroup {
        id: "C".repeat(16),
        path: "/sys/fs/cgroup/faber/task-err".to_string(),
    });
    run.fail();
    let to_remove = run.cleanup();
    assert_eq!(to_remove, Some("/sys/fs/cgroup/faber/task-err".to_string()));

    let mut early = TaskRun::start(5000);
    early.fail();
    assert_eq!(early.cleanup(), None);
}

#[test]
fn timeout_path_is_marked_as_timeout() {
    let mut run = TaskRun::start(100);
    run.cgroup_created(TaskCgroup {
        id: "D".repeat(16),
        path: "/sys/fs/cgroup/faber/task-slow".to_string(),
    });
    run.spawned();
    run.attached();
    run.waiting();
    run.timed_out();
    run.measured();
    assert!(run.cleanup().is_some());
    let e = timeout_error(1000);
    assert!(e.message().contains("timeout"));
    assert!(e.message().contains("1000 ms"));
}

#[test]
fn failure_results_render_their_cause() {
    let e = timeout_error(60000);
    let r = failed_result(&e);
    match r {
        TaskResult::Failed { error, stats } => {
            assert!(error.starts_with("Task execution failed: "));
            assert!(error.contains("timeout"));
            assert_eq!(stats, TaskResultStats::default());
        }
        _ => panic!("a failure renders as Failed"),
    }
    match panicked_result() {
        TaskResult::Failed { error, .. } => {
            assert_eq!(error, "Thread panicked during task execution");
        }
        _ => panic!("a panic renders as Failed"),
    }
}

#[test]
fn stats_assembly_attaches_wall_clock() {
    let measured = TaskResultStats {
        memory_peak_bytes: 111,
        cpu_usage_usec: 222,
        execution_time_ms: 0,
        pids_peak: 3,
    };
    let s = assemble_stats(450, measured);
    assert_eq!(s.execution_time_ms, 450);
    assert_eq!(s.memory_peak_bytes, 111);
    assert_eq!(s.cpu_usage_usec, 222);
    assert_eq!(s.pids_peak, 3);
}

#[test]
fn runtime_defaults_and_builder() {
    let rt = Runtime::new(vec![ExecutionStep::Single(task("x"))]);
    assert_eq!(rt.timeout_ms, 5000);
    assert_eq!(rt.cgroup.config.pids_max, 64);
    assert_eq!(rt.container.config.workdir, "/faber");
    assert_eq!(rt.container.config.hostname, "faber");
    assert_eq!(rt.container.config.id.len(), 12);

    let built = RuntimeBuilder::default()
        .with_task_group(vec![ExecutionStep::Single(task("y"))])
        .with_cgroup_config(CgroupConfigBuilder::new().with_pids(8).build())
        .with_container_config(
            ContainerConfigBuilder::new().with_hostname("box".to_string()).build(),
        )
        .with_timeout(1234)
        .build();
    assert_eq!(built.timeout_ms, 1234);
    assert_eq!(built.cgroup.config.pids_max, 8);
    assert_eq!(built.container.config.hostname, "box");
    assert_eq!(built.task_group.len(), 1);
}

#[test]
fn poll_interval_is_the_documented_one() {
    assert_eq!(faber::POLL_INTERVAL_MS, 100);
}
