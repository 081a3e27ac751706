//! The runtime executor's decision core.
//!
//! The process around the library forks, spawns and waits; every decision
//! it takes is computed here: which step runs next and how its outcomes are
//! recorded ([`GroupRun`]), how the spawned command is assembled
//! ([`build_command`]), the per-task lifecycle ([`TaskRun`]), the hardening
//! steps applied between fork and exec ([`pre_exec_plan`]), and the
//! poll-with-timeout protocol ([`wait_decision`]).

use vstd::prelude::*;
use crate::POLL_INTERVAL_MS;
use crate::cgroup::{Cgroup, CgroupConfig, TaskCgroup};
use crate::container::{Container, ContainerConfig};
use crate::error::FaberError;
use crate::result::{
    ExecutionStepResult, StepResultV, TaskResult, TaskResultStats, TaskResultV,
};
use crate::task::{ExecutionStep, StepV, Task, TaskGroup};
use crate::text::str_concat;

verus! {

/// The search path injected when a task supplies no `PATH` of its own.
pub open spec fn default_path() -> Seq<char> {
    "/usr/local/sbin:/usr/local/bin:/usr/sbin:/usr/bin:/sbin:/bin"@
}

/// Whether an environment holds an entry for the key.
pub open spec fn has_key(env: Seq<(Seq<char>, Seq<char>)>, key: Seq<char>) -> bool {
    exists|i: int| 0 <= i < env.len() && (#[trigger] env[i]).0 == key
}

/// Everything the spawner needs to start one command.
#[derive(Debug)]
pub struct CommandSpec {
    pub program: String,
    pub args: Vec<String>,
    pub env: Vec<(String, String)>,
    pub stdin: Option<String>,
    pub files: Vec<(String, String)>,
    pub working_dir: Option<String>,
}

/// Assemble the command for a task: its program, arguments and files as
/// given, and its environment with the default `PATH` appended exactly when
/// the task supplies none.
pub fn build_command(task: &Task) -> (c: CommandSpec)
    ensures
        c.program@ == task@.cmd,
        c.args.deep_view() == (match task@.args {
            Some(a) => a,
            None => Seq::<Seq<char>>::empty(),
        }),
        ({
            let base = match task@.env {
                Some(e) => e,
                None => Seq::<(Seq<char>, Seq<char>)>::empty(),
            };
            if has_key(base, "PATH"@) {
                c.env.deep_view() == base
            } else {
                c.env.deep_view() == base.push(("PATH"@, default_path()))
            }
        }),
        c.stdin.deep_view() == task@.stdin,
        c.files.deep_view() == (match task@.files {
            Some(f) => f,
            None => Seq::<(Seq<char>, Seq<char>)>::empty(),
        }),
        c.working_dir.deep_view() == task@.working_dir,
{
    let program = task.cmd.clone();
    let args = match &task.args {
        Some(a) => crate::task::clone_string_vec(a),
        None => Vec::new(),
    };
    let mut env = match &task.env {
        Some(e) => crate::task::clone_pair_vec(e),
        None => Vec::new(),
    };
    let ghost base = env.deep_view();
    proof {
        assert(base == (match task@.env {
            Some(e) => e,
            None => Seq::<(Seq<char>, Seq<char>)>::empty(),
        }));
    }
    let mut found = false;
    let mut i: usize = 0;
    while i < env.len()
        invariant
            0 <= i <= env@.len(),
            base == env.deep_view(),
            base.len() == env@.len(),
            found == exists|j: int| 0 <= j < i && (#[trigger] base[j]).0 == "PATH"@,
        decreases env@.len() - i,
    {
        proof {
            assert(base[i as int].0 == env@[i as int].0@);
        }
        if crate::text::str_eq(env[i].0.as_str(), "PATH") {
            found = true;
            proof {
                assert(base[i as int].0 == "PATH"@);
            }
        }
        i = i + 1;
    }
    if !found {
        let ghost before = env.deep_view();
        env.push(("PATH".to_owned(), "/usr/local/sbin:/usr/local/bin:/usr/sbin:/usr/bin:/sbin:/bin".to_owned()));
        proof {
            assert(!has_key(base, "PATH"@));
            assert(env.deep_view() =~= base.push(("PATH"@, default_path())));
        }
    }
    let stdin = match &task.stdin {
        Some(s) => Some(s.clone()),
        None => None,
    };
    let files = match &task.files {
        Some(f) => crate::task::clone_pair_vec(f),
        None => Vec::new(),
    };
    let working_dir = match &task.working_dir {
        Some(s) => Some(s.clone()),
        None => None,
    };
    CommandSpec { program, args, env, stdin, files, working_dir }
}

/// One hardening step of the post-fork, pre-exec window.
#[derive(Debug, Clone, Copy, PartialEq, Eq, Structural)]
pub enum HardeningStep {
    /// Split into a task-private mount namespace.
    UnshareMountNamespace,
    /// Replace `/proc` and `/sys` with empty tmpfs mounts.
    MaskPaths,
    /// Drop to the unprivileged group.
    SetGid(u32),
    /// Drop to the unprivileged user.
    SetUid(u32),
    /// Clear the effective capability set.
    ClearEffectiveCapabilities,
    /// Clear the permitted capability set.
    ClearPermittedCapabilities,
    /// Clear the inheritable capability set.
    ClearInheritableCapabilities,
}

/// The ordered hardening pipeline: privileged namespace and mount work
/// first, then the drop to the unprivileged user, then the capability
/// flush, after which nothing privileged remains. A seccomp filter is
/// reserved as a further stage but is not part of this revision.
pub open spec fn pre_exec_plan_spec() -> Seq<HardeningStep> {
    seq![
        HardeningStep::UnshareMountNamespace,
        HardeningStep::MaskPaths,
        HardeningStep::SetGid(65534),
        HardeningStep::SetUid(65534),
        HardeningStep::ClearEffectiveCapabilities,
        HardeningStep::ClearPermittedCapabilities,
        HardeningStep::ClearInheritableCapabilities,
    ]
}

/// The hardening steps to run, in order, between fork and exec.
pub fn pre_exec_plan() -> (v: Vec<HardeningStep>)
    ensures
        v@ == pre_exec_plan_spec(),
{
    let mut v: Vec<HardeningStep> = Vec::new();
    v.push(HardeningStep::UnshareMountNamespace);
    v.push(HardeningStep::MaskPaths);
    v.push(HardeningStep::SetGid(65534));
    v.push(HardeningStep::SetUid(65534));
    v.push(HardeningStep::ClearEffectiveCapabilities);
    v.push(HardeningStep::ClearPermittedCapabilities);
    v.push(HardeningStep::ClearInheritableCapabilities);
    proof {
        assert(v@ =~= pre_exec_plan_spec());
    }
    v
}

/// The user command never runs with a non-empty effective capability set:
/// the hardening pipeline clears the effective capabilities, and every step
/// after that clear is itself a capability clear, so no privilege can be
/// reacquired before exec.
pub proof fn lemma_caps_cleared_before_exec()
    ensures
        exists|i: int|
            0 <= i < pre_exec_plan_spec().len() && pre_exec_plan_spec()[i]
                is ClearEffectiveCapabilities,
        forall|i: int, j: int|
            0 <= i < j < pre_exec_plan_spec().len() && (#[trigger] pre_exec_plan_spec()[i])
                is ClearEffectiveCapabilities ==> {
                ||| (#[trigger] pre_exec_plan_spec()[j]) is ClearEffectiveCapabilities
                ||| pre_exec_plan_spec()[j] is ClearPermittedCapabilities
                ||| pre_exec_plan_spec()[j] is ClearInheritableCapabilities
            },
{
    assert(pre_exec_plan_spec()[4] is ClearEffectiveCapabilities);
}

/// What the waiter does after one poll of the child process.
#[derive(Debug, Clone, Copy, PartialEq, Eq, Structural)]
pub enum WaitDecision {
    /// The process has exited; collect its status.
    Completed,
    /// The deadline has passed: kill the process, reap it, and report a
    /// timeout.
    KillAndTimeout,
    /// Keep waiting; sleep one poll interval first.
    PollAgain,
}

/// Decide what to do after one poll: a finished process completes the task,
/// a live one past the deadline is killed, and otherwise the waiter sleeps
/// one poll interval and polls again.
pub fn wait_decision(exited: bool, elapsed_ms: u64, timeout_ms: u64) -> (d: WaitDecision)
    ensures
        exited ==> d == WaitDecision::Completed,
        !exited && elapsed_ms > timeout_ms ==> d == WaitDecision::KillAndTimeout,
        !exited && elapsed_ms <= timeout_ms ==> d == WaitDecision::PollAgain,
{
    if exited {
        WaitDecision::Completed
    } else if elapsed_ms > timeout_ms {
        WaitDecision::KillAndTimeout
    } else {
        WaitDecision::PollAgain
    }
}

/// A task that times out is reported no later than one polling gap past its
/// deadline: if consecutive polls are at most `gap` apart, every poll
/// before the `k`-th saw the deadline unexpired, and the `k`-th is past the
/// deadline, then the `k`-th poll — the recorded execution time — is at
/// most `timeout + gap`.
pub proof fn lemma_timeout_slack(ts: Seq<int>, timeout: int, gap: int, k: int)
    requires
        0 <= k < ts.len(),
        gap >= 0,
        timeout >= 0,
        ts[0] <= gap,
        forall|i: int| 1 <= i <= k ==> #[trigger] ts[i] <= ts[i - 1] + gap,
        forall|i: int| 0 <= i < k ==> #[trigger] ts[i] <= timeout,
        ts[k] > timeout,
    ensures
        ts[k] <= timeout + gap,
{
    if k == 0 {
        assert(ts[0] <= gap <= timeout + gap);
    } else {
        assert(ts[k - 1] <= timeout);
        assert(ts[k] <= ts[k - 1] + gap);
    }
}

/// The timeout error reported for a task that exceeded its deadline.
pub fn timeout_error(timeout_ms: u64) -> (e: FaberError)
    ensures
        e is TaskTimeout,
        e.spec_details() == "task exceeded timeout of "@ + crate::text::dec_digits(
            timeout_ms as nat,
        ) + " ms"@,
{
    let ms = crate::text::u64_to_string(timeout_ms);
    let s = str_concat("task exceeded timeout of ", ms.as_str());
    FaberError::TaskTimeout { details: str_concat(s.as_str(), " ms") }
}

/// The failure result recorded for a task whose execution errored: the
/// rendered error under a fixed prefix, with default statistics.
pub fn failed_result(e: &FaberError) -> (r: TaskResult)
    ensures
        r@ matches TaskResultV::Failed { error, stats } && error == "Task execution failed: "@
            + e.spec_message() && stats == (TaskResultStats {
            memory_peak_bytes: 0,
            cpu_usage_usec: 0,
            execution_time_ms: 0,
            pids_peak: 0,
        }),
{
    let msg = e.message();
    TaskResult::Failed {
        error: str_concat("Task execution failed: ", msg.as_str()),
        stats: TaskResultStats::default(),
    }
}

/// The failure result recorded for a task whose worker thread panicked.
pub fn panicked_result() -> (r: TaskResult)
    ensures
        r@ matches TaskResultV::Failed { error, stats } && error
            == "Thread panicked during task execution"@ && stats == (TaskResultStats {
            memory_peak_bytes: 0,
            cpu_usage_usec: 0,
            execution_time_ms: 0,
            pids_peak: 0,
        }),
{
    TaskResult::Failed {
        error: "Thread panicked during task execution".to_owned(),
        stats: TaskResultStats::default(),
    }
}

/// Attach the wall-clock execution time to measured cgroup statistics.
pub fn assemble_stats(elapsed_ms: u64, measured: TaskResultStats) -> (r: TaskResultStats)
    ensures
        r.memory_peak_bytes == measured.memory_peak_bytes,
        r.cpu_usage_usec == measured.cpu_usage_usec,
        r.pids_peak == measured.pids_peak,
        r.execution_time_ms == elapsed_ms,
{
    TaskResultStats {
        memory_peak_bytes: measured.memory_peak_bytes,
        cpu_usage_usec: measured.cpu_usage_usec,
        execution_time_ms: elapsed_ms,
        pids_peak: measured.pids_peak,
    }
}

/// Whether a step result has the shape its step demands: a single result
/// for a single task, and one result per task — in position — for a
/// parallel batch.
pub open spec fn step_result_matches(s: StepV, r: StepResultV) -> bool {
    match s {
        StepV::Single(_) => r is Single,
        StepV::Parallel(ts) => r matches StepResultV::Parallel(rs) && rs.len() == ts.len(),
    }
}

/// Whether a group result mirrors its group: one step result per step, in
/// order, each of the step's shape.
pub open spec fn group_result_matches(g: Seq<StepV>, rs: Seq<StepResultV>) -> bool {
    &&& rs.len() == g.len()
    &&& forall|i: int| 0 <= i < g.len() ==> step_result_matches(#[trigger] g[i], rs[i])
}

/// The execution of one task group: steps are taken strictly in order, and
/// each one's outcomes are recorded in a result of exactly the step's
/// shape.
#[derive(Debug)]
pub struct GroupRun {
    pub steps: Vec<ExecutionStep>,
    pub results: Vec<ExecutionStepResult>,
}

impl GroupRun {
    /// Results recorded so far mirror the steps already executed.
    pub open spec fn wf(&self) -> bool {
        &&& self.results@.len() <= self.steps@.len()
        &&& forall|i: int|
            0 <= i < self.results@.len() ==> step_result_matches(
                #[trigger] self.steps.deep_view()[i],
                self.results.deep_view()[i],
            )
    }

    /// The steps of the group being executed.
    pub open spec fn steps_view(&self) -> Seq<StepV> {
        self.steps.deep_view()
    }

    /// How many steps have been executed.
    pub open spec fn executed(&self) -> nat {
        self.results@.len()
    }

    /// Begin executing a group; nothing has run yet.
    pub fn new(group: TaskGroup) -> (s: Self)
        ensures
            s.wf(),
            s.steps_view() == group.deep_view(),
            s.executed() == 0,
    {
        GroupRun { steps: group, results: Vec::new() }
    }

    /// Whether every step has been executed.
    pub fn is_done(&self) -> (r: bool)
        ensures
            r == (self.executed() == self.steps_view().len()),
    {
        self.results.len() == self.steps.len()
    }

    /// The step to execute next.
    pub fn next_step(&self) -> (step: &ExecutionStep)
        requires
            self.executed() < self.steps_view().len(),
        ensures
            step@ == self.steps_view()[self.executed() as int],
    {
        let i = self.results.len();
        &self.steps[i]
    }

    /// Record the outcomes of the next step, one per task in order; the
    /// recorded result takes the step's shape.
    pub fn record_outcomes(&mut self, outcomes: Vec<TaskResult>)
        requires
            old(self).wf(),
            old(self).executed() < old(self).steps_view().len(),
            outcomes@.len() == old(self).steps_view()[old(self).executed() as int].task_count(),
        ensures
            final(self).wf(),
            final(self).steps_view() == old(self).steps_view(),
            final(self).executed() == old(self).executed() + 1,
            final(self).results_view() == old(self).results_view().push(
                match old(self).steps_view()[old(self).executed() as int] {
                    StepV::Single(_) => StepResultV::Single(outcomes.deep_view()[0]),
                    StepV::Parallel(_) => StepResultV::Parallel(outcomes.deep_view()),
                },
            ),
    {
        let i = self.results.len();
        let ghost old_results = self.results.deep_view();
        let ghost ov = outcomes.deep_view();
        proof {
            assert(ov.len() == outcomes@.len());
        }
        let is_single = match &self.steps[i] {
            ExecutionStep::Single(_) => true,
            ExecutionStep::Parallel(_) => false,
        };
        if is_single {
            let mut o = outcomes;
            let first = o.remove(0);
            proof {
                assert(first@ == ov[0]);
            }
            self.results.push(ExecutionStepResult::Single(first));
            proof {
                assert(self.results.deep_view() =~= old_results.push(StepResultV::Single(ov[0])));
            }
        } else {
            self.results.push(ExecutionStepResult::Parallel(outcomes));
            proof {
                assert(self.results.deep_view() =~= old_results.push(StepResultV::Parallel(ov)));
            }
        }
    }

    /// The results recorded so far.
    pub open spec fn results_view(&self) -> Seq<StepResultV> {
        self.results.deep_view()
    }

    /// Finish the run: the returned group result mirrors the input group —
    /// one result per step, in order, each of its step's shape.
    pub fn into_result(self) -> (r: crate::result::TaskGroupResult)
        requires
            self.wf(),
            self.executed() == self.steps_view().len(),
        ensures
            r.deep_view() == self.results_view(),
            group_result_matches(self.steps_view(), r.deep_view()),
    {
        self.results
    }
}

/// Phases of the per-task lifecycle, in the order they are reached.
#[derive(Debug, Clone, Copy, PartialEq, Eq, Structural)]
pub enum TaskPhase {
    Ready,
    CgroupCreated,
    Spawned,
    Attached,
    Waiting,
    Exited,
    TimedOut,
    Measured,
    CleanedUp,
    Failed,
}

/// The lifecycle of one task execution.
///
/// The process around the library drives the phases in order — create the
/// cgroup, spawn, attach, wait, measure — and must finish with
/// [`TaskRun::cleanup`], which names the task cgroup directory to destroy
/// whenever one was created, on the failure path as on the success path.
#[derive(Debug)]
pub struct TaskRun {
    pub phase: TaskPhase,
    pub cgroup: Option<TaskCgroup>,
    pub timeout_ms: u64,
}

impl TaskRun {
    /// Begin executing one task.
    pub fn start(timeout_ms: u64) -> (s: Self)
        ensures
            s.phase == TaskPhase::Ready,
            s.cgroup is None,
            s.timeout_ms == timeout_ms,
    {
        TaskRun { phase: TaskPhase::Ready, cgroup: None, timeout_ms }
    }

    /// The task cgroup has been created on disk.
    pub fn cgroup_created(&mut self, tc: TaskCgroup)
        requires
            old(self).phase == TaskPhase::Ready,
        ensures
            final(self).phase == TaskPhase::CgroupCreated,
            final(self).cgroup matches Some(c) && c.id@ == tc.id@ && c.path@ == tc.path@,
            final(self).timeout_ms == old(self).timeout_ms,
    {
        self.cgroup = Some(tc);
        self.phase = TaskPhase::CgroupCreated;
    }

    /// The command process has been spawned.
    pub fn spawned(&mut self)
        requires
            old(self).phase == TaskPhase::CgroupCreated,
        ensures
            final(self).phase == TaskPhase::Spawned,
            final(self).cgroup == old(self).cgroup,
            final(self).timeout_ms == old(self).timeout_ms,
    {
        self.phase = TaskPhase::Spawned;
    }

    /// The spawned process has been attached to the task cgroup.
    pub fn attached(&mut self)
        requires
            old(self).phase == TaskPhase::Spawned,
        ensures
            final(self).phase == TaskPhase::Attached,
            final(self).cgroup == old(self).cgroup,
            final(self).timeout_ms == old(self).timeout_ms,
    {
        self.phase = TaskPhase::Attached;
    }

    /// Stdin has been written (or there was none); the waiter polls now.
    pub fn waiting(&mut self)
        requires
            old(self).phase == TaskPhase::Attached,
        ensures
            final(self).phase == TaskPhase::Waiting,
            final(self).cgroup == old(self).cgroup,
            final(self).timeout_ms == old(self).timeout_ms,
    {
        self.phase = TaskPhase::Waiting;
    }

    /// The process exited by itself.
    pub fn exited(&mut self)
        requires
            old(self).phase == TaskPhase::Waiting,
        ensures
            final(self).phase == TaskPhase::Exited,
            final(self).cgroup == old(self).cgroup,
            final(self).timeout_ms == old(self).timeout_ms,
    {
        self.phase = TaskPhase::Exited;
    }

    /// The process was killed after exceeding its deadline.
    pub fn timed_out(&mut self)
        requires
            old(self).phase == TaskPhase::Waiting,
        ensures
            final(self).phase == TaskPhase::TimedOut,
            final(self).cgroup == old(self).cgroup,
            final(self).timeout_ms == old(self).timeout_ms,
    {
        self.phase = TaskPhase::TimedOut;
    }

    /// The cgroup statistics have been read (or substituted by defaults).
    pub fn measured(&mut self)
        requires
            old(self).phase == TaskPhase::Exited || old(self).phase == TaskPhase::TimedOut,
        ensures
            final(self).phase == TaskPhase::Measured,
            final(self).cgroup == old(self).cgroup,
            final(self).timeout_ms == old(self).timeout_ms,
    {
        self.phase = TaskPhase::Measured;
    }

    /// Something failed; the run is abandoned, but still owes cleanup.
    pub fn fail(&mut self)
        ensures
            final(self).phase == TaskPhase::Failed,
            final(self).cgroup == old(self).cgroup,
            final(self).timeout_ms == old(self).timeout_ms,
    {
        self.phase = TaskPhase::Failed;
    }

    /// Finish the run: whenever a task cgroup was created — on the success
    /// path or the failure path — the returned path is exactly its
    /// directory, which the caller must remove after reaping the process.
    pub fn cleanup(&mut self) -> (p: Option<String>)
        requires
            old(self).phase == TaskPhase::Measured || old(self).phase == TaskPhase::Failed,
        ensures
            final(self).phase == TaskPhase::CleanedUp,
            match old(self).cgroup {
                Some(tc) => p matches Some(path) && path@ == tc.path@,
                None => p is None,
            },
    {
        self.phase = TaskPhase::CleanedUp;
        match &self.cgroup {
            Some(tc) => Some(tc.cleanup()),
            None => None,
        }
    }
}

/// The runtime for one request: the task group, the container and cgroup
/// managers, and the per-task deadline.
#[derive(Debug)]
pub struct Runtime {
    pub task_group: TaskGroup,
    pub container: Container,
    pub cgroup: Cgroup,
    pub timeout_ms: u64,
}

impl Runtime {
    /// A runtime for the group with a fresh default container, default
    /// limits and the default five-second deadline.
    pub fn new(task_group: TaskGroup) -> (r: Self)
        ensures
            r.task_group.deep_view() == task_group.deep_view(),
            r.container.config@.is_default(),
            r.cgroup.config.cpu_max@ == "50000 100000"@,
            r.cgroup.config.memory_max@ == "128M"@,
            r.cgroup.config.pids_max == 64,
            r.timeout_ms == 5000,
    {
        Runtime {
            task_group,
            container: Container::default(),
            cgroup: Cgroup::default(),
            timeout_ms: 5000,
        }
    }
}

/// Builder for [`Runtime`], starting from an empty group and the defaults.
#[derive(Debug)]
pub struct RuntimeBuilder {
    pub task_group: TaskGroup,
    pub container: Container,
    pub cgroup: Cgroup,
    pub timeout_ms: u64,
}

impl Default for RuntimeBuilder {
    /// The default builder: an empty group, default container and limits,
    /// five-second deadline.
    fn default() -> (r: Self)
        ensures
            r.task_group@.len() == 0,
            r.container.config@.is_default(),
            r.cgroup.config.cpu_max@ == "50000 100000"@,
            r.cgroup.config.memory_max@ == "128M"@,
            r.cgroup.config.pids_max == 64,
            r.timeout_ms == 5000,
    {
        RuntimeBuilder {
            task_group: Vec::new(),
            container: Container::default(),
            cgroup: Cgroup::default(),
            timeout_ms: 5000,
        }
    }
}

impl RuntimeBuilder {
    pub fn with_task_group(self, task_group: TaskGroup) -> (r: Self)
        ensures
            r.task_group.deep_view() == task_group.deep_view(),
            r.container == self.container,
            r.cgroup == self.cgroup,
            r.timeout_ms == self.timeout_ms,
    {
        let mut b = self;
        b.task_group = task_group;
        b
    }

    pub fn with_cgroup_config(self, cgroup_config: CgroupConfig) -> (r: Self)
        ensures
            r.cgroup.config.cpu_max@ == cgroup_config.cpu_max@,
            r.cgroup.config.memory_max@ == cgroup_config.memory_max@,
            r.cgroup.config.pids_max == cgroup_config.pids_max,
            r.task_group == self.task_group,
            r.container == self.container,
            r.timeout_ms == self.timeout_ms,
    {
        let mut b = self;
        b.cgroup = Cgroup::new(cgroup_config);
        b
    }

    pub fn with_container_config(self, container_config: ContainerConfig) -> (r: Self)
        ensures
            r.container.config@ == container_config@,
            r.task_group == self.task_group,
            r.cgroup == self.cgroup,
            r.timeout_ms == self.timeout_ms,
    {
        let mut b = self;
        b.container = Container::new(container_config);
        b
    }

    pub fn with_timeout(self, timeout_ms: u64) -> (r: Self)
        ensures
            r.timeout_ms == timeout_ms,
            r.task_group == self.task_group,
            r.container == self.container,
            r.cgroup == self.cgroup,
    {
        let mut b = self;
        b.timeout_ms = timeout_ms;
        b
    }

    pub fn build(self) -> (r: Runtime)
        ensures
            r.task_group == self.task_group,
            r.container == self.container,
            r.cgroup == self.cgroup,
            r.timeout_ms == self.timeout_ms,
    {
        Runtime {
            task_group: self.task_group,
            container: self.container,
            cgroup: self.cgroup,
            timeout_ms: self.timeout_ms,
        }
    }
}

} // verus!
