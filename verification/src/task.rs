//! The task model: one command invocation, execution steps and task groups.

use vstd::prelude::*;

verus! {

/// Mathematical view of a [`Task`].
pub struct TaskV {
    pub cmd: Seq<char>,
    pub args: Option<Seq<Seq<char>>>,
    pub env: Option<Seq<(Seq<char>, Seq<char>)>>,
    pub stdin: Option<Seq<char>>,
    pub files: Option<Seq<(Seq<char>, Seq<char>)>>,
    pub working_dir: Option<Seq<char>>,
}

/// Mathematical view of an [`ExecutionStep`].
pub enum StepV {
    Single(TaskV),
    Parallel(Seq<TaskV>),
}

/// Immutable description of one command invocation.
#[derive(Debug, PartialEq, Eq)]
pub struct Task {
    /// Program to exec; required and non-empty.
    pub cmd: String,
    /// Ordered argument list.
    pub args: Option<Vec<String>>,
    /// Environment entries; keys unique.
    pub env: Option<Vec<(String, String)>>,
    /// Bytes to write to the child's stdin, which is then closed.
    pub stdin: Option<String>,
    /// Files to materialize inside the container before exec, as
    /// absolute-path/contents pairs; keys unique.
    pub files: Option<Vec<(String, String)>>,
    /// Working directory inside the container; the container workdir if absent.
    pub working_dir: Option<String>,
}

/// One unit of scheduling: a single task or a parallel batch.
#[derive(Debug, PartialEq, Eq)]
pub enum ExecutionStep {
    Single(Task),
    Parallel(Vec<Task>),
}

/// An ordered sequence of execution steps, posted as one request.
pub type TaskGroup = Vec<ExecutionStep>;

impl View for Task {
    type V = TaskV;

    open spec fn view(&self) -> TaskV {
        TaskV {
            cmd: self.cmd@,
            args: self.args.deep_view(),
            env: self.env.deep_view(),
            stdin: self.stdin.deep_view(),
            files: self.files.deep_view(),
            working_dir: self.working_dir.deep_view(),
        }
    }
}

impl DeepView for Task {
    type V = TaskV;

    open spec fn deep_view(&self) -> TaskV {
        self.view()
    }
}

impl View for ExecutionStep {
    type V = StepV;

    open spec fn view(&self) -> StepV {
        match self {
            ExecutionStep::Single(t) => StepV::Single(t@),
            ExecutionStep::Parallel(ts) => StepV::Parallel(ts.deep_view()),
        }
    }
}

impl DeepView for ExecutionStep {
    type V = StepV;

    open spec fn deep_view(&self) -> StepV {
        self.view()
    }
}

/// No two entries of the mapping share a key.
pub open spec fn unique_keys(s: Seq<(Seq<char>, Seq<char>)>) -> bool {
    forall|i: int, j: int| 0 <= i < j < s.len() ==> (#[trigger] s[i]).0 != (#[trigger] s[j]).0
}

impl TaskV {
    /// Well-formedness: the command is non-empty and the mappings have
    /// unique keys.
    pub open spec fn wf(&self) -> bool {
        &&& self.cmd.len() > 0
        &&& match self.env {
            Some(e) => unique_keys(e),
            None => true,
        }
        &&& match self.files {
            Some(f) => unique_keys(f),
            None => true,
        }
    }
}

impl StepV {
    pub open spec fn wf(&self) -> bool {
        match self {
            StepV::Single(t) => t.wf(),
            StepV::Parallel(ts) => forall|i: int| 0 <= i < ts.len() ==> (#[trigger] ts[i]).wf(),
        }
    }

    /// How many tasks the step schedules.
    pub open spec fn task_count(&self) -> nat {
        match self {
            StepV::Single(_) => 1,
            StepV::Parallel(ts) => ts.len(),
        }
    }
}

/// Well-formedness of a whole group view.
pub open spec fn group_wf(g: Seq<StepV>) -> bool {
    forall|i: int| 0 <= i < g.len() ==> (#[trigger] g[i]).wf()
}

/// Clone a vector of strings, preserving its contents.
pub fn clone_string_vec(v: &Vec<String>) -> (r: Vec<String>)
    ensures
        r.deep_view() == v.deep_view(),
{
    let mut r: Vec<String> = Vec::new();
    let mut i: usize = 0;
    while i < v.len()
        invariant
            0 <= i <= v@.len(),
            r@.len() == i,
            forall|j: int| 0 <= j < i ==> #[trigger] r@[j]@ == v@[j]@,
        decreases v@.len() - i,
    {
        r.push(v[i].clone());
        i = i + 1;
    }
    proof {
        assert(r.deep_view() =~= v.deep_view());
    }
    r
}

/// Clone a vector of key/value string pairs, preserving its contents.
pub fn clone_pair_vec(v: &Vec<(String, String)>) -> (r: Vec<(String, String)>)
    ensures
        r.deep_view() == v.deep_view(),
{
    let mut r: Vec<(String, String)> = Vec::new();
    let mut i: usize = 0;
    while i < v.len()
        invariant
            0 <= i <= v@.len(),
            r@.len() == i,
            forall|j: int| 0 <= j < i ==> #[trigger] r@[j].0@ == v@[j].0@ && r@[j].1@ == v@[j].1@,
        decreases v@.len() - i,
    {
        let key = v[i].0.clone();
        let val = v[i].1.clone();
        r.push((key, val));
        i = i + 1;
    }
    proof {
        assert(r.deep_view() =~= v.deep_view());
    }
    r
}

impl Clone for Task {
    /// Cloning preserves the task's view.
    fn clone(&self) -> (r: Self)
        ensures
            r@ == self@,
    {
        let r = Task {
            cmd: self.cmd.clone(),
            args: match &self.args {
                Some(v) => Some(clone_string_vec(v)),
                None => None,
            },
            env: match &self.env {
                Some(v) => Some(clone_pair_vec(v)),
                None => None,
            },
            stdin: match &self.stdin {
                Some(s) => Some(s.clone()),
                None => None,
            },
            files: match &self.files {
                Some(v) => Some(clone_pair_vec(v)),
                None => None,
            },
            working_dir: match &self.working_dir {
                Some(s) => Some(s.clone()),
                None => None,
            },
        };
        r
    }
}

/// Clone a vector of tasks, preserving its contents.
pub fn clone_task_vec(v: &Vec<Task>) -> (r: Vec<Task>)
    ensures
        r.deep_view() == v.deep_view(),
{
    let mut r: Vec<Task> = Vec::new();
    let mut i: usize = 0;
    while i < v.len()
        invariant
            0 <= i <= v@.len(),
            r@.len() == i,
            forall|j: int| 0 <= j < i ==> #[trigger] r@[j]@ == v@[j]@,
        decreases v@.len() - i,
    {
        r.push(v[i].clone());
        i = i + 1;
    }
    proof {
        assert(r.deep_view() =~= v.deep_view());
    }
    r
}

impl Clone for ExecutionStep {
    /// Cloning preserves the step's view.
    fn clone(&self) -> (r: Self)
        ensures
            r@ == self@,
    {
        match self {
            ExecutionStep::Single(t) => ExecutionStep::Single(t.clone()),
            ExecutionStep::Parallel(ts) => ExecutionStep::Parallel(clone_task_vec(ts)),
        }
    }
}

/// Clone a task group, preserving its contents.
pub fn clone_task_group(g: &TaskGroup) -> (r: TaskGroup)
    ensures
        r.deep_view() == g.deep_view(),
{
    let mut r: TaskGroup = Vec::new();
    let mut i: usize = 0;
    while i < g.len()
        invariant
            0 <= i <= g@.len(),
            r@.len() == i,
            forall|j: int| 0 <= j < i ==> #[trigger] r@[j]@ == g@[j]@,
        decreases g@.len() - i,
    {
        r.push(g[i].clone());
        i = i + 1;
    }
    proof {
        assert(r.deep_view() =~= g.deep_view());
    }
    r
}

} // verus!
