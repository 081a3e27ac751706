//! Container construction: the ordered protocol that turns the forked child
//! into a filesystem- and namespace-isolated environment.
//!
//! The module computes the exact, ordered sequence of privileged actions —
//! unsharing, bind mounts, `pivot_root`, device nodes, `/proc`, `/sys`,
//! cgroup and tmpfs mounts, hostname — as plain data with a proven shape.
//! The unverified process around the library performs each action with the
//! corresponding syscall, in order.

use vstd::prelude::*;
use crate::ident::{generate_random_string, is_id_string};
use crate::text::str_concat;

verus! {

/// Mathematical view of a [`ContainerConfig`].
pub struct ContainerConfigV {
    pub id: Seq<char>,
    pub container_root_dir: Seq<char>,
    pub workdir: Seq<char>,
    pub tmpdir_size: Seq<char>,
    pub workdir_size: Seq<char>,
    pub bind_mounts_ro: Seq<Seq<char>>,
    pub bind_mounts_rw: Seq<Seq<char>>,
    pub hostname: Seq<char>,
}

/// Configuration of one container.
#[derive(Debug)]
pub struct ContainerConfig {
    /// Random 12-character identifier of this container.
    pub id: String,
    /// Host directory that becomes the container root.
    pub container_root_dir: String,
    /// Working directory inside the container.
    pub workdir: String,
    /// Size option of the tmpfs mounted at `/tmp`.
    pub tmpdir_size: String,
    /// Size option of the tmpfs mounted at the workdir.
    pub workdir_size: String,
    /// Host paths exposed read-only inside the container, in order.
    pub bind_mounts_ro: Vec<String>,
    /// Host paths exposed read-write inside the container, in order.
    pub bind_mounts_rw: Vec<String>,
    /// Hostname of the container's UTS namespace.
    pub hostname: String,
}

impl View for ContainerConfig {
    type V = ContainerConfigV;

    open spec fn view(&self) -> ContainerConfigV {
        ContainerConfigV {
            id: self.id@,
            container_root_dir: self.container_root_dir@,
            workdir: self.workdir@,
            tmpdir_size: self.tmpdir_size@,
            workdir_size: self.workdir_size@,
            bind_mounts_ro: self.bind_mounts_ro.deep_view(),
            bind_mounts_rw: self.bind_mounts_rw.deep_view(),
            hostname: self.hostname@,
        }
    }
}

impl ContainerConfigV {
    /// The defaults: a fresh random id, a root under the host scratch
    /// area, the standard read-only system paths, no writable paths.
    pub open spec fn is_default(&self) -> bool {
        &&& self.id.len() == 12
        &&& is_id_string(self.id)
        &&& self.container_root_dir == "/tmp/faber/"@ + self.id
        &&& self.workdir == "/faber"@
        &&& self.tmpdir_size == "128M"@
        &&& self.workdir_size == "128M"@
        &&& self.bind_mounts_ro == seq!["/bin"@, "/lib"@, "/lib64"@, "/usr"@]
        &&& self.bind_mounts_rw == Seq::<Seq<char>>::empty()
        &&& self.hostname == "faber"@
    }
}

impl Default for ContainerConfig {
    /// The default configuration, with a fresh random identifier.
    fn default() -> (r: Self)
        ensures
            r@.is_default(),
    {
        let id = generate_random_string(12);
        let container_root_dir = str_concat("/tmp/faber/", id.as_str());
        let mut bind_mounts_ro: Vec<String> = Vec::new();
        bind_mounts_ro.push("/bin".to_owned());
        bind_mounts_ro.push("/lib".to_owned());
        bind_mounts_ro.push("/lib64".to_owned());
        bind_mounts_ro.push("/usr".to_owned());
        let r = ContainerConfig {
            id,
            container_root_dir,
            workdir: "/faber".to_owned(),
            tmpdir_size: "128M".to_owned(),
            workdir_size: "128M".to_owned(),
            bind_mounts_ro,
            bind_mounts_rw: Vec::new(),
            hostname: "faber".to_owned(),
        };
        proof {
            assert(r.bind_mounts_ro.deep_view() =~= seq!["/bin"@, "/lib"@, "/lib64"@, "/usr"@]);
            assert(r.bind_mounts_rw.deep_view() =~= Seq::<Seq<char>>::empty());
        }
        r
    }
}

/// Builder for [`ContainerConfig`], starting from the defaults.
#[derive(Debug)]
pub struct ContainerConfigBuilder {
    pub config: ContainerConfig,
}

impl ContainerConfigBuilder {
    pub fn new() -> (r: Self)
        ensures
            r.config@.is_default(),
    {
        ContainerConfigBuilder { config: ContainerConfig::default() }
    }

    pub fn with_ro_bind_mounts(self, ro_bind_mounts: Vec<String>) -> (r: Self)
        ensures
            r.config@ == (ContainerConfigV {
                bind_mounts_ro: ro_bind_mounts.deep_view(),
                ..self.config@
            }),
    {
        let mut b = self;
        b.config.bind_mounts_ro = ro_bind_mounts;
        b
    }

    pub fn with_w_bind_mounts(self, w_bind_mounts: Vec<String>) -> (r: Self)
        ensures
            r.config@ == (ContainerConfigV {
                bind_mounts_rw: w_bind_mounts.deep_view(),
                ..self.config@
            }),
    {
        let mut b = self;
        b.config.bind_mounts_rw = w_bind_mounts;
        b
    }

    pub fn with_tmpdir_size(self, tmpdir_size: String) -> (r: Self)
        ensures
            r.config@ == (ContainerConfigV { tmpdir_size: tmpdir_size@, ..self.config@ }),
    {
        let mut b = self;
        b.config.tmpdir_size = tmpdir_size;
        b
    }

    pub fn with_workdir_size(self, workdir_size: String) -> (r: Self)
        ensures
            r.config@ == (ContainerConfigV { workdir_size: workdir_size@, ..self.config@ }),
    {
        let mut b = self;
        b.config.workdir_size = workdir_size;
        b
    }

    pub fn with_workdir(self, workdir: String) -> (r: Self)
        ensures
            r.config@ == (ContainerConfigV { workdir: workdir@, ..self.config@ }),
    {
        let mut b = self;
        b.config.workdir = workdir;
        b
    }

    pub fn with_hostname(self, hostname: String) -> (r: Self)
        ensures
            r.config@ == (ContainerConfigV { hostname: hostname@, ..self.config@ }),
    {
        let mut b = self;
        b.config.hostname = hostname;
        b
    }

    pub fn build(self) -> (r: ContainerConfig)
        ensures
            r@ == self.config@,
    {
        self.config
    }
}

/// Mathematical view of a [`SetupAction`].
pub enum SetupActionV {
    CreateDir(Seq<char>),
    UnshareNamespaces,
    MakeRootPrivate,
    BindSelf(Seq<char>),
    BindRo { source: Seq<char>, target: Seq<char> },
    PivotRoot { new_root: Seq<char>, old_root: Seq<char> },
    Chdir(Seq<char>),
    DetachUnmount(Seq<char>),
    RemoveDir(Seq<char>),
    RemoveTree(Seq<char>),
    MakeDevice { path: Seq<char>, major: u64, minor: u64 },
    MountProc(Seq<char>),
    MountSysfs(Seq<char>),
    MountCgroup2(Seq<char>),
    MountTmpfs { target: Seq<char>, options: Seq<char> },
    MaskTmpfs(Seq<char>),
    SetHostname(Seq<char>),
}

/// One privileged action of the container lifecycle, to be performed by the
/// caller with the corresponding syscall.
#[derive(Debug, PartialEq, Eq)]
pub enum SetupAction {
    /// Create the directory and its parents if absent.
    CreateDir(String),
    /// `unshare` into fresh UTS, network, IPC and mount namespaces.
    UnshareNamespaces,
    /// Remount `/` recursively private so no mount propagates back.
    MakeRootPrivate,
    /// Bind-mount the path onto itself, recursively; required before
    /// `pivot_root`.
    BindSelf(String),
    /// Bind-mount `source` read-only at `target`; a non-existent source is
    /// skipped with a warning, not an error.
    BindRo { source: String, target: String },
    /// `pivot_root` into `new_root`, parking the old root at `old_root`.
    PivotRoot { new_root: String, old_root: String },
    /// Change the current directory.
    Chdir(String),
    /// Lazily detach the mount at the path.
    DetachUnmount(String),
    /// Remove the (empty) directory.
    RemoveDir(String),
    /// Remove the directory tree.
    RemoveTree(String),
    /// Create a character device node with permissions 0666.
    MakeDevice { path: String, major: u64, minor: u64 },
    /// Mount `proc` at the path with `nodev,nosuid,noexec`.
    MountProc(String),
    /// Mount `sysfs` at the path with `nodev,nosuid,noexec`.
    MountSysfs(String),
    /// Mount `cgroup2` at the path with `relatime,nodev,nosuid,noexec`.
    MountCgroup2(String),
    /// Mount a tmpfs at `target` with the given mount options.
    MountTmpfs { target: String, options: String },
    /// Mount an empty (`size=0`) tmpfs with `nodev,nosuid,noexec`, masking
    /// whatever was visible at the path.
    MaskTmpfs(String),
    /// Set the hostname of the current UTS namespace.
    SetHostname(String),
}

impl View for SetupAction {
    type V = SetupActionV;

    open spec fn view(&self) -> SetupActionV {
        match self {
            SetupAction::CreateDir(p) => SetupActionV::CreateDir(p@),
            SetupAction::UnshareNamespaces => SetupActionV::UnshareNamespaces,
            SetupAction::MakeRootPrivate => SetupActionV::MakeRootPrivate,
            SetupAction::BindSelf(p) => SetupActionV::BindSelf(p@),
            SetupAction::BindRo { source, target } => SetupActionV::BindRo {
                source: source@,
                target: target@,
            },
            SetupAction::PivotRoot { new_root, old_root } => SetupActionV::PivotRoot {
                new_root: new_root@,
                old_root: old_root@,
            },
            SetupAction::Chdir(p) => SetupActionV::Chdir(p@),
            SetupAction::DetachUnmount(p) => SetupActionV::DetachUnmount(p@),
            SetupAction::RemoveDir(p) => SetupActionV::RemoveDir(p@),
            SetupAction::RemoveTree(p) => SetupActionV::RemoveTree(p@),
            SetupAction::MakeDevice { path, major, minor } => SetupActionV::MakeDevice {
                path: path@,
                major: *major,
                minor: *minor,
            },
            SetupAction::MountProc(p) => SetupActionV::MountProc(p@),
            SetupAction::MountSysfs(p) => SetupActionV::MountSysfs(p@),
            SetupAction::MountCgroup2(p) => SetupActionV::MountCgroup2(p@),
            SetupAction::MountTmpfs { target, options } => SetupActionV::MountTmpfs {
                target: target@,
                options: options@,
            },
            SetupAction::MaskTmpfs(p) => SetupActionV::MaskTmpfs(p@),
            SetupAction::SetHostname(p) => SetupActionV::SetHostname(p@),
        }
    }
}

impl DeepView for SetupAction {
    type V = SetupActionV;

    open spec fn deep_view(&self) -> SetupActionV {
        self.view()
    }
}

/// The two actions that expose one read-only host path: create the target
/// directory under the root, then bind the source onto it.
pub open spec fn bind_actions(root: Seq<char>, sources: Seq<Seq<char>>) -> Seq<SetupActionV>
    decreases sources.len(),
{
    if sources.len() == 0 {
        Seq::empty()
    } else {
        seq![
            SetupActionV::CreateDir(root + sources.first()),
            SetupActionV::BindRo { source: sources.first(), target: root + sources.first() },
        ] + bind_actions(root, sources.drop_first())
    }
}

/// The ordered container setup protocol for a configuration.
pub open spec fn setup_plan_spec(c: ContainerConfigV) -> Seq<SetupActionV> {
    let root = c.container_root_dir;
    seq![
        SetupActionV::CreateDir(root),
        SetupActionV::UnshareNamespaces,
        SetupActionV::MakeRootPrivate,
        SetupActionV::BindSelf(root),
    ] + bind_actions(root, c.bind_mounts_ro) + seq![
        SetupActionV::CreateDir(root + "/oldroot"@),
        SetupActionV::PivotRoot { new_root: root, old_root: root + "/oldroot"@ },
        SetupActionV::Chdir("/"@),
        SetupActionV::DetachUnmount("/oldroot"@),
        SetupActionV::RemoveDir("/oldroot"@),
        SetupActionV::CreateDir("/dev"@),
        SetupActionV::MakeDevice { path: "/dev/null"@, major: 1, minor: 3 },
        SetupActionV::MakeDevice { path: "/dev/zero"@, major: 1, minor: 5 },
        SetupActionV::MakeDevice { path: "/dev/full"@, major: 1, minor: 7 },
        SetupActionV::MakeDevice { path: "/dev/random"@, major: 1, minor: 8 },
        SetupActionV::MakeDevice { path: "/dev/urandom"@, major: 1, minor: 9 },
        SetupActionV::CreateDir("/proc"@),
        SetupActionV::MountProc("/proc"@),
        SetupActionV::CreateDir("/sys"@),
        SetupActionV::MountSysfs("/sys"@),
        SetupActionV::MountCgroup2("/sys/fs/cgroup"@),
        SetupActionV::CreateDir("/tmp"@),
        SetupActionV::MountTmpfs {
            target: "/tmp"@,
            options: "size="@ + c.tmpdir_size + ",mode=1777"@,
        },
        SetupActionV::SetHostname(c.hostname),
        SetupActionV::CreateDir(c.workdir),
        SetupActionV::MountTmpfs {
            target: c.workdir,
            options: "size="@ + c.workdir_size + ",mode=0777"@,
        },
        SetupActionV::Chdir(c.workdir),
    ]
}

/// The teardown protocol: detach whatever is still mounted under the root,
/// then remove the root directory tree from the host.
pub open spec fn teardown_plan_spec(c: ContainerConfigV) -> Seq<SetupActionV> {
    seq![
        SetupActionV::DetachUnmount(c.container_root_dir),
        SetupActionV::RemoveTree(c.container_root_dir),
    ]
}

/// The per-task masking protocol: detach `/sys` and `/proc`, then hide both
/// behind empty tmpfs mounts.
pub open spec fn mask_paths_plan_spec() -> Seq<SetupActionV> {
    seq![
        SetupActionV::DetachUnmount("/sys"@),
        SetupActionV::DetachUnmount("/proc"@),
        SetupActionV::MaskTmpfs("/sys"@),
        SetupActionV::MaskTmpfs("/proc"@),
    ]
}

/// The container manager for one request.
#[derive(Debug)]
pub struct Container {
    pub config: ContainerConfig,
}

impl Default for Container {
    /// The default container carries a default configuration with a fresh
    /// random identifier.
    fn default() -> (r: Self)
        ensures
            r.config@.is_default(),
    {
        Container { config: ContainerConfig::default() }
    }
}

impl Container {
    pub fn new(config: ContainerConfig) -> (r: Self)
        ensures
            r.config@ == config@,
    {
        Container { config }
    }

    /// The ordered sequence of actions that assembles this container.
    pub fn setup_plan(&self) -> (v: Vec<SetupAction>)
        ensures
            v.deep_view() == setup_plan_spec(self.config@),
    {
        let root = &self.config.container_root_dir;
        let mut v: Vec<SetupAction> = Vec::new();
        v.push(SetupAction::CreateDir(root.clone()));
        v.push(SetupAction::UnshareNamespaces);
        v.push(SetupAction::MakeRootPrivate);
        v.push(SetupAction::BindSelf(root.clone()));
        let ghost prefix = v.deep_view();
        proof {
            assert(prefix =~= seq![
                SetupActionV::CreateDir(root@),
                SetupActionV::UnshareNamespaces,
                SetupActionV::MakeRootPrivate,
                SetupActionV::BindSelf(root@),
            ]);
        }
        let ghost sources = self.config.bind_mounts_ro.deep_view();
        let mut i: usize = 0;
        proof {
            assert(sources.subrange(0, sources.len() as int) =~= sources);
        }
        while i < self.config.bind_mounts_ro.len()
            invariant
                0 <= i <= self.config.bind_mounts_ro@.len(),
                sources == self.config.bind_mounts_ro.deep_view(),
                sources.len() == self.config.bind_mounts_ro@.len(),
                root == self.config.container_root_dir,
                v.deep_view() =~= prefix + bind_actions(root@, sources.subrange(0, i as int)),
            decreases self.config.bind_mounts_ro@.len() - i,
        {
            let source = &self.config.bind_mounts_ro[i];
            let target = str_concat(root.as_str(), source.as_str());
            let ghost old_v = v.deep_view();
            v.push(SetupAction::CreateDir(target.clone()));
            v.push(SetupAction::BindRo { source: source.clone(), target });
            proof {
                assert(sources[i as int] == source@);
                lemma_bind_actions_push(root@, sources, i as int);
                assert(v.deep_view() =~= old_v + seq![
                    SetupActionV::CreateDir(root@ + source@),
                    SetupActionV::BindRo { source: source@, target: root@ + source@ },
                ]);
            }
            i = i + 1;
        }
        proof {
            assert(sources.subrange(0, sources.len() as int) =~= sources);
        }
        let old_root = str_concat(root.as_str(), "/oldroot");
        v.push(SetupAction::CreateDir(old_root.clone()));
        v.push(SetupAction::PivotRoot { new_root: root.clone(), old_root });
        v.push(SetupAction::Chdir("/".to_owned()));
        v.push(SetupAction::DetachUnmount("/oldroot".to_owned()));
        v.push(SetupAction::RemoveDir("/oldroot".to_owned()));
        v.push(SetupAction::CreateDir("/dev".to_owned()));
        v.push(SetupAction::MakeDevice { path: "/dev/null".to_owned(), major: 1, minor: 3 });
        v.push(SetupAction::MakeDevice { path: "/dev/zero".to_owned(), major: 1, minor: 5 });
        v.push(SetupAction::MakeDevice { path: "/dev/full".to_owned(), major: 1, minor: 7 });
        v.push(SetupAction::MakeDevice { path: "/dev/random".to_owned(), major: 1, minor: 8 });
        v.push(SetupAction::MakeDevice { path: "/dev/urandom".to_owned(), major: 1, minor: 9 });
        v.push(SetupAction::CreateDir("/proc".to_owned()));
        v.push(SetupAction::MountProc("/proc".to_owned()));
        v.push(SetupAction::CreateDir("/sys".to_owned()));
        v.push(SetupAction::MountSysfs("/sys".to_owned()));
        v.push(SetupAction::MountCgroup2("/sys/fs/cgroup".to_owned()));
        v.push(SetupAction::CreateDir("/tmp".to_owned()));
        let tmp_options = {
            let s = str_concat("size=", self.config.tmpdir_size.as_str());
            str_concat(s.as_str(), ",mode=1777")
        };
        v.push(SetupAction::MountTmpfs { target: "/tmp".to_owned(), options: tmp_options });
        v.push(SetupAction::SetHostname(self.config.hostname.clone()));
        v.push(SetupAction::CreateDir(self.config.workdir.clone()));
        let work_options = {
            let s = str_concat("size=", self.config.workdir_size.as_str());
            str_concat(s.as_str(), ",mode=0777")
        };
        v.push(SetupAction::MountTmpfs {
            target: self.config.workdir.clone(),
            options: work_options,
        });
        v.push(SetupAction::Chdir(self.config.workdir.clone()));
        proof {
            assert(v.deep_view() =~= setup_plan_spec(self.config@));
        }
        v
    }

    /// The actions that tear this container down on the host side.
    pub fn cleanup_plan(&self) -> (v: Vec<SetupAction>)
        ensures
            v.deep_view() == teardown_plan_spec(self.config@),
    {
        let mut v: Vec<SetupAction> = Vec::new();
        v.push(SetupAction::DetachUnmount(self.config.container_root_dir.clone()));
        v.push(SetupAction::RemoveTree(self.config.container_root_dir.clone()));
        proof {
            assert(v.deep_view() =~= teardown_plan_spec(self.config@));
        }
        v
    }

    /// The actions that mask the host's `/proc` and `/sys` from a task.
    pub fn mask_paths_plan() -> (v: Vec<SetupAction>)
        ensures
            v.deep_view() == mask_paths_plan_spec(),
    {
        let mut v: Vec<SetupAction> = Vec::new();
        v.push(SetupAction::DetachUnmount("/sys".to_owned()));
        v.push(SetupAction::DetachUnmount("/proc".to_owned()));
        v.push(SetupAction::MaskTmpfs("/sys".to_owned()));
        v.push(SetupAction::MaskTmpfs("/proc".to_owned()));
        proof {
            assert(v.deep_view() =~= mask_paths_plan_spec());
        }
        v
    }
}

/// Extending the processed prefix by one source appends that source's two
/// actions.
proof fn lemma_bind_actions_push(root: Seq<char>, sources: Seq<Seq<char>>, i: int)
    requires
        0 <= i < sources.len(),
    ensures
        bind_actions(root, sources.subrange(0, i + 1)) == bind_actions(root, sources.subrange(0, i))
            + seq![
            SetupActionV::CreateDir(root + sources[i]),
            SetupActionV::BindRo { source: sources[i], target: root + sources[i] },
        ],
    decreases i,
{
    if i == 0 {
        let s1 = sources.subrange(0, 1);
        assert(s1.first() == sources[0]);
        assert(s1.drop_first() =~= Seq::<Seq<char>>::empty());
        assert(bind_actions(root, Seq::empty()) == Seq::<SetupActionV>::empty());
        assert(sources.subrange(0, 0) =~= Seq::<Seq<char>>::empty());
        assert(bind_actions(root, s1) =~= bind_actions(root, sources.subrange(0, 0)) + seq![
            SetupActionV::CreateDir(root + sources[0]),
            SetupActionV::BindRo { source: sources[0], target: root + sources[0] },
        ]);
    } else {
        lemma_bind_actions_push(root, sources.drop_first(), i - 1);
        let p = sources.subrange(0, i);
        let q = sources.subrange(0, i + 1);
        assert(p.first() == sources[0]);
        assert(q.first() == sources[0]);
        assert(p.drop_first() =~= sources.drop_first().subrange(0, i - 1));
        assert(q.drop_first() =~= sources.drop_first().subrange(0, i));
        assert(sources.drop_first()[i - 1] == sources[i]);
        assert(bind_actions(root, q) == seq![
            SetupActionV::CreateDir(root + sources[0]),
            SetupActionV::BindRo { source: sources[0], target: root + sources[0] },
        ] + bind_actions(root, q.drop_first()));
        assert(bind_actions(root, p) == seq![
            SetupActionV::CreateDir(root + sources[0]),
            SetupActionV::BindRo { source: sources[0], target: root + sources[0] },
        ] + bind_actions(root, p.drop_first()));
        assert(bind_actions(root, q) =~= bind_actions(root, p) + seq![
            SetupActionV::CreateDir(root + sources[i]),
            SetupActionV::BindRo { source: sources[i], target: root + sources[i] },
        ]);
    }
}

} // verus!
