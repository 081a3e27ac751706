//! The result model: per-task outcomes, step results and group results.

use vstd::prelude::*;

verus! {

/// Resource usage of one finished task.
///
/// `cpu_usage_usec` is the `usage_usec` counter of the task cgroup's
/// `cpu.stat` file, in microseconds of CPU time.
#[derive(Debug, Clone, Copy, PartialEq, Eq)]
pub struct TaskResultStats {
    pub memory_peak_bytes: u64,
    pub cpu_usage_usec: u64,
    pub execution_time_ms: u64,
    pub pids_peak: u64,
}

impl Default for TaskResultStats {
    /// The default statistics are all zero.
    fn default() -> (r: Self)
        ensures
            r == (TaskResultStats {
                memory_peak_bytes: 0,
                cpu_usage_usec: 0,
                execution_time_ms: 0,
                pids_peak: 0,
            }),
    {
        TaskResultStats { memory_peak_bytes: 0, cpu_usage_usec: 0, execution_time_ms: 0, pids_peak: 0 }
    }
}

/// Mathematical view of a [`TaskResult`].
pub enum TaskResultV {
    Completed { stdout: Seq<char>, stderr: Seq<char>, exit_code: i32, stats: TaskResultStats },
    Failed { error: Seq<char>, stats: TaskResultStats },
}

/// Outcome of one task.
#[derive(Debug, PartialEq, Eq)]
pub enum TaskResult {
    /// The process terminated by itself, with or without a nonzero exit.
    Completed { stdout: String, stderr: String, exit_code: i32, stats: TaskResultStats },
    /// The runtime could not produce a proper exit.
    Failed { error: String, stats: TaskResultStats },
}

impl View for TaskResult {
    type V = TaskResultV;

    open spec fn view(&self) -> TaskResultV {
        match self {
            TaskResult::Completed { stdout, stderr, exit_code, stats } => TaskResultV::Completed {
                stdout: stdout@,
                stderr: stderr@,
                exit_code: *exit_code,
                stats: *stats,
            },
            TaskResult::Failed { error, stats } => TaskResultV::Failed {
                error: error@,
                stats: *stats,
            },
        }
    }
}

impl DeepView for TaskResult {
    type V = TaskResultV;

    open spec fn deep_view(&self) -> TaskResultV {
        self.view()
    }
}

impl Clone for TaskResult {
    /// Cloning preserves the result's view.
    fn clone(&self) -> (r: Self)
        ensures
            r@ == self@,
    {
        match self {
            TaskResult::Completed { stdout, stderr, exit_code, stats } => TaskResult::Completed {
                stdout: stdout.clone(),
                stderr: stderr.clone(),
                exit_code: *exit_code,
                stats: *stats,
            },
            TaskResult::Failed { error, stats } => TaskResult::Failed {
                error: error.clone(),
                stats: *stats,
            },
        }
    }
}

/// Mathematical view of an [`ExecutionStepResult`].
pub enum StepResultV {
    Single(TaskResultV),
    Parallel(Seq<TaskResultV>),
}

/// Result of one execution step, mirroring the step's shape.
#[derive(Debug, PartialEq, Eq)]
pub enum ExecutionStepResult {
    Single(TaskResult),
    Parallel(Vec<TaskResult>),
}

impl View for ExecutionStepResult {
    type V = StepResultV;

    open spec fn view(&self) -> StepResultV {
        match self {
            ExecutionStepResult::Single(r) => StepResultV::Single(r@),
            ExecutionStepResult::Parallel(rs) => StepResultV::Parallel(rs.deep_view()),
        }
    }
}

impl DeepView for ExecutionStepResult {
    type V = StepResultV;

    open spec fn deep_view(&self) -> StepResultV {
        self.view()
    }
}

/// Clone a vector of task results, preserving its contents.
pub fn clone_task_result_vec(v: &Vec<TaskResult>) -> (r: Vec<TaskResult>)
    ensures
        r.deep_view() == v.deep_view(),
{
    let mut r: Vec<TaskResult> = Vec::new();
    let mut i: usize = 0;
    while i < v.len()
        invariant
            0 <= i <= v@.len(),
            r@.len() == i,
            forall|j: int| 0 <= j < i ==> #[trigger] r@[j]@ == v@[j]@,
        decreases v@.len() - i,
    {
        r.push(v[i].clone());
        i = i + 1;
    }
    proof {
        assert(r.deep_view() =~= v.deep_view());
    }
    r
}

impl Clone for ExecutionStepResult {
    /// Cloning preserves the step result's view.
    fn clone(&self) -> (r: Self)
        ensures
            r@ == self@,
    {
        match self {
            ExecutionStepResult::Single(t) => ExecutionStepResult::Single(t.clone()),
            ExecutionStepResult::Parallel(ts) => ExecutionStepResult::Parallel(
                clone_task_result_vec(ts),
            ),
        }
    }
}

/// Ordered results of a whole task group.
pub type TaskGroupResult = Vec<ExecutionStepResult>;

/// Clone a task group result, preserving its contents.
pub fn clone_task_group_result(g: &TaskGroupResult) -> (r: TaskGroupResult)
    ensures
        r.deep_view() == g.deep_view(),
{
    let mut r: TaskGroupResult = Vec::new();
    let mut i: usize = 0;
    while i < g.len()
        invariant
            0 <= i <= g@.len(),
            r@.len() == i,
            forall|j: int| 0 <= j < i ==> #[trigger] r@[j]@ == g@[j]@,
        decreases g@.len() - i,
    {
        r.push(g[i].clone());
        i = i + 1;
    }
    proof {
        assert(r.deep_view() =~= g.deep_view());
    }
    r
}

/// Mathematical view of a [`RuntimeResult`].
pub enum RuntimeResultV {
    Success(Seq<StepResultV>),
    ContainerSetupFailed { error: Seq<char> },
}

/// What the child process reports back over the pipe: either the ordered
/// step results, or the one failure class that aborts a whole group.
#[derive(Debug, PartialEq, Eq)]
pub enum RuntimeResult {
    Success(TaskGroupResult),
    ContainerSetupFailed { error: String },
}

impl View for RuntimeResult {
    type V = RuntimeResultV;

    open spec fn view(&self) -> RuntimeResultV {
        match self {
            RuntimeResult::Success(g) => RuntimeResultV::Success(g.deep_view()),
            RuntimeResult::ContainerSetupFailed { error } => RuntimeResultV::ContainerSetupFailed {
                error: error@,
            },
        }
    }
}

impl Clone for RuntimeResult {
    /// Cloning preserves the result's view.
    fn clone(&self) -> (r: Self)
        ensures
            r@ == self@,
    {
        match self {
            RuntimeResult::Success(g) => RuntimeResult::Success(clone_task_group_result(g)),
            RuntimeResult::ContainerSetupFailed { error } => RuntimeResult::ContainerSetupFailed {
                error: error.clone(),
            },
        }
    }
}

} // verus!
