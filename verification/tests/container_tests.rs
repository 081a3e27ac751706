use faber::container::{Container, ContainerConfig, ContainerConfigBuilder, SetupAction};

#[test]
fn default_config_matches_the_documented_layout() {
    let c = ContainerConfig::default();
    assert_eq!(c.id.len(), 12);
    assert!(c.id.chars().all(|ch| ch.is_ascii_alphanumeric()));
    assert_eq!(c.container_root_dir, format!("/tmp/faber/{}", c.id));
    assert_eq!(c.workdir, "/faber");
    assert_eq!(c.tmpdir_size, "128M");
    assert_eq!(c.workdir_size, "128M");
    assert_eq!(c.bind_mounts_ro, vec!["/bin", "/lib", "/lib64", "/usr"]);
    assert!(c.bind_mounts_rw.is_empty());
    assert_eq!(c.hostname, "faber");
}

#[test]
fn builder_overrides_fields() {
    let c = ContainerConfigBuilder::new()
        .with_ro_bind_mounts(vec!["/bin".to_string()])
        .with_w_bind_mounts(vec!["/data".to_string()])
        .with_tmpdir_size("64M".to_string())
        .with_workdir_size("32M".to_string())
        .with_workdir("/work".to_string())
        .with_hostname("sandbox".to_string())
        .build();
    assert_eq!(c.bind_mounts_ro, vec!["/bin"]);
    assert_eq!(c.bind_mounts_rw, vec!["/data"]);
    assert_eq!(c.tmpdir_size, "64M");
    assert_eq!(c.workdir_size, "32M");
    assert_eq!(c.workdir, "/work");
    assert_eq!(c.hostname, "sandbox");
}

#[test]
fn setup_plan_follows_the_protocol_order() {
    let container = Container::new(ContainerConfigBuilder::new().build());
    let root = container.config.container_root_dir.clone();
    let plan = container.setup_plan();
    assert_eq!(plan.len(), 34);
    assert_eq!(plan[0], SetupAction::CreateDir(root.clone()));
    assert_eq!(plan[1], SetupAction::UnshareNamespaces);
    assert_eq!(plan[2], SetupAction::MakeRootPrivate);
    assert_eq!(plan[3], SetupAction::BindSelf(root.clone()));
    // one directory and one bind per read-only path, in order
    let sources = ["/bin", "/lib", "/lib64", "/usr"];
    for (k, src) in sources.iter().enumerate() {
        let target = format!("{}{}", root, src);
        assert_eq!(plan[4 + 2 * k], SetupAction::CreateDir(target.clone()));
        assert_eq!(
            plan[5 + 2 * k],
            SetupAction::BindRo { source: src.to_string(), target }
        );
    }
    assert_eq!(plan[12], SetupAction::CreateDir(format!("{}/oldroot", root)));
    assert_eq!(
        plan[13],
        SetupAction::PivotRoot { new_root: root.clone(), old_root: format!("{}/oldroot", root) }
    );
    assert_eq!(plan[14], SetupAction::Chdir("/".to_string()));
    assert_eq!(plan[15], SetupAction::DetachUnmount("/oldroot".to_string()));
    assert_eq!(plan[16], SetupAction::RemoveDir("/oldroot".to_string()));
    assert_eq!(plan[17], SetupAction::CreateDir("/dev".to_string()));
    assert_eq!(
        plan[18],
        SetupAction::MakeDevice { path: "/dev/null".to_string(), major: 1, minor: 3 }
    );
    assert_eq!(
        plan[19],
        SetupAction::MakeDevice { path: "/dev/zero".to_string(), major: 1, minor: 5 }
    );
    assert_eq!(
        plan[20],
        SetupAction::MakeDevice { path: "/dev/full".to_string(), major: 1, minor: 7 }
    );
    assert_eq!(
        plan[21],
        SetupAction::MakeDevice { path: "/dev/random".to_string(), major: 1, minor: 8 }
    );
    assert_eq!(
        plan[22],
        SetupAction::MakeDevice { path: "/dev/urandom".to_string(), major: 1, minor: 9 }
    );
    assert_eq!(plan[23], SetupAction::CreateDir("/proc".to_string()));
    assert_eq!(plan[24], SetupAction::MountProc("/proc".to_string()));
    assert_eq!(plan[25], SetupAction::CreateDir("/sys".to_string()));
    assert_eq!(plan[26], SetupAction::MountSysfs("/sys".to_string()));
    assert_eq!(plan[27], SetupAction::MountCgroup2("/sys/fs/cgroup".to_string()));
    assert_eq!(plan[28], SetupAction::CreateDir("/tmp".to_string()));
    assert_eq!(
        plan[29],
        SetupAction::MountTmpfs {
            target: "/tmp".to_string(),
            options: "size=128M,mode=1777".to_string()
        }
    );
    assert_eq!(plan[30], SetupAction::SetHostname("faber".to_string()));
    assert_eq!(plan[31], SetupAction::CreateDir("/faber".to_string()));
    assert_eq!(
        plan[32],
        SetupAction::MountTmpfs {
            target: "/faber".to_string(),
            options: "size=128M,mode=0777".to_string()
        }
    );
    assert_eq!(plan[33], SetupAction::Chdir("/faber".to_string()));
}

#[test]
fn cleanup_plan_removes_the_container_root() {
    let container = Container::new(ContainerConfigBuilder::new().build());
    let root = container.config.container_root_dir.clone();
    let plan = container.cleanup_plan();
    assert_eq!(plan.len(), 2);
    assert_eq!(plan[0], SetupAction::DetachUnmount(root.clone()));
    assert_eq!(plan[1], SetupAction::RemoveTree(root));
}

#[test]
fn mask_paths_hides_proc_and_sys() {
    let plan = Container::mask_paths_plan();
    assert_eq!(
        plan,
        vec![
            SetupAction::DetachUnmount("/sys".to_string()),
            SetupAction::DetachUnmount("/proc".to_string()),
            SetupAction::MaskTmpfs("/sys".to_string()),
            SetupAction::MaskTmpfs("/proc".to_string()),
        ]
    );
}
