use faber::cgroup::{
    Cgroup, CgroupConfig, CgroupConfigBuilder, HierarchyStep, TaskCgroup, parse_memory_string,
};
use faber::error::FaberError;

#[test]
fn memory_string_accepts_max() {
    assert_eq!(parse_memory_string("max").unwrap(), u64::MAX);
    assert_eq!(parse_memory_string("  max \n").unwrap(), u64::MAX);
}

#[test]
fn memory_string_parses_bytes_and_units() {
    assert_eq!(parse_memory_string("123").unwrap(), 123);
    assert_eq!(parse_memory_string("128M").unwrap(), 128 * 1024 * 1024);
    assert_eq!(parse_memory_string("1G").unwrap(), 1 << 30);
    assert_eq!(parse_memory_string("2k").unwrap(), 2048);
    assert_eq!(parse_memory_string("5T").unwrap(), 5 * (1u64 << 40));
    assert_eq!(parse_memory_string(" 64M ").unwrap(), 64 * 1024 * 1024);
}

#[test]
fn memory_string_errors_name_their_cause() {
    match parse_memory_string("12X") {
        Err(FaberError::Generic { message }) => assert_eq!(message, "Unknown memory unit: X"),
        other => panic!("expected the unknown-unit rejection, got {:?}", other),
    }
    match parse_memory_string(" 12X \n") {
        Err(FaberError::Generic { message }) => assert_eq!(message, "Unknown memory unit: X"),
        other => panic!("expected the unknown-unit rejection, got {:?}", other),
    }
    match parse_memory_string("1.5G") {
        Err(FaberError::Generic { message }) => {
            assert_eq!(message, "Invalid memory format: 1.5G")
        }
        other => panic!("expected the invalid-format rejection, got {:?}", other),
    }
    match parse_memory_string(" aM ") {
        Err(FaberError::Generic { message }) => assert_eq!(message, "Invalid memory format: aM"),
        other => panic!("expected the invalid-format rejection, got {:?}", other),
    }
}

#[test]
fn memory_string_rejects_garbage() {
    assert!(parse_memory_string("").is_err());
    assert!(parse_memory_string("12X").is_err());
    assert!(parse_memory_string("G").is_err());
    assert!(parse_memory_string("twelve").is_err());
    assert!(parse_memory_string("-5M").is_err());
    assert!(parse_memory_string("99999999999999999999G").is_err());
}

#[test]
fn builder_overrides_defaults() {
    let config = CgroupConfigBuilder::new()
        .with_cpu("10000 100000".to_string())
        .with_memory("64M".to_string())
        .with_pids(16)
        .build();
    assert_eq!(config.cpu_max, "10000 100000");
    assert_eq!(config.memory_max, "64M");
    assert_eq!(config.pids_max, 16);
    let defaults = CgroupConfig::default();
    assert_eq!(defaults.cpu_max, "50000 100000");
    assert_eq!(defaults.memory_max, "128M");
    assert_eq!(defaults.pids_max, 64);
}

#[test]
fn hierarchy_plan_prepares_parent_subtree() {
    let plan = Cgroup::hierarchy_plan();
    assert_eq!(plan.len(), 3);
    assert_eq!(
        plan[0],
        HierarchyStep::Write {
            path: "/sys/fs/cgroup/cgroup.subtree_control".to_string(),
            contents: "+cpu +memory +pids".to_string(),
        }
    );
    assert_eq!(plan[1], HierarchyStep::CreateDir { path: "/sys/fs/cgroup/faber".to_string() });
    assert_eq!(
        plan[2],
        HierarchyStep::WriteToleratingBusy {
            path: "/sys/fs/cgroup/faber/cgroup.subtree_control".to_string(),
            contents: "+cpu +memory +pids".to_string(),
        }
    );
}

#[test]
fn create_task_cgroup_plans_three_writes() {
    let cgroup = Cgroup::default();
    let (tc, writes) = cgroup.create_task_cgroup().unwrap();
    assert_eq!(tc.id.len(), 16);
    assert!(tc.id.chars().all(|c| c.is_ascii_alphanumeric()));
    assert_eq!(tc.path, format!("/sys/fs/cgroup/faber/task-{}", tc.id));
    assert_eq!(writes.len(), 3);
    assert_eq!(writes[0].path, format!("{}/cpu.max", tc.path));
    assert_eq!(writes[0].contents, "50000 100000");
    assert_eq!(writes[1].path, format!("{}/memory.max", tc.path));
    assert_eq!(writes[1].contents, "134217728");
    assert_eq!(writes[2].path, format!("{}/pids.max", tc.path));
    assert_eq!(writes[2].contents, "64");
}

#[test]
fn create_task_cgroup_rejects_bad_memory_limit() {
    let cgroup = Cgroup::new(CgroupConfigBuilder::new().with_memory("bogus".to_string()).build());
    assert!(cgroup.create_task_cgroup().is_err());
}

#[test]
fn add_process_targets_cgroup_procs() {
    let tc = TaskCgroup { id: "A".repeat(16), path: "/sys/fs/cgroup/faber/task-x".to_string() };
    let w = tc.add_process(4242);
    assert_eq!(w.path, "/sys/fs/cgroup/faber/task-x/cgroup.procs");
    assert_eq!(w.contents, "4242");
    assert_eq!(tc.cleanup(), "/sys/fs/cgroup/faber/task-x");
}

#[test]
fn measure_resources_reads_counters() {
    let cpu = "usage_usec 1234\nuser_usec 1000\nsystem_usec 234\n";
    let stats = TaskCgroup::measure_resources(Some(cpu), Some("4096\n"), Some("5\n"), None);
    assert_eq!(stats.cpu_usage_usec, 1234);
    assert_eq!(stats.memory_peak_bytes, 4096);
    assert_eq!(stats.pids_peak, 5);
    assert_eq!(stats.execution_time_ms, 0);
}

#[test]
fn measure_resources_falls_back_and_zeroes() {
    let stats = TaskCgroup::measure_resources(None, None, None, Some("3\n"));
    assert_eq!(stats.cpu_usage_usec, 0);
    assert_eq!(stats.memory_peak_bytes, 0);
    assert_eq!(stats.pids_peak, 3);
    let none = TaskCgroup::measure_resources(Some("garbage"), Some("max"), None, None);
    assert_eq!(none.cpu_usage_usec, 0);
    assert_eq!(none.memory_peak_bytes, 0);
    assert_eq!(none.pids_peak, 0);
}

#[test]
fn cpu_stat_last_match_wins() {
    let cpu = "usage_usec 1\nusage_usec 2\n";
    let stats = TaskCgroup::measure_resources(Some(cpu), None, None, None);
    assert_eq!(stats.cpu_usage_usec, 2);
}

#[test]
fn read_task_stats_fills_all_counters() {
    let cpu = "usage_usec 50\nuser_usec 30\nsystem_usec 20";
    let stats = Cgroup::read_task_stats(
        Some(cpu),
        Some("100"),
        Some("200"),
        Some("max"),
        Some("2"),
        Some("64"),
    );
    assert_eq!(stats.cpu.usage_usec, 50);
    assert_eq!(stats.cpu.user_usec, 30);
    assert_eq!(stats.cpu.system_usec, 20);
    assert_eq!(stats.memory.current, 100);
    assert_eq!(stats.memory.peak, 200);
    assert_eq!(stats.memory.max, 0);
    assert_eq!(stats.pids.current, 2);
    assert_eq!(stats.pids.max, 64);
}
