//! The wire format: task groups and results as JSON.
//!
//! The encoding is structural, not tagged: an object encodes a single
//! task (or task result), an array encodes a parallel batch; a result
//! object is a failure exactly when it carries an `error` member. This
//! module maps the domain model to and from the JSON tree and proves the
//! round-trip laws: decoding inverts encoding, for whole task groups and
//! for whole group results, structural variants preserved.

use vstd::prelude::*;
use crate::json::{
    Json, JsonV, parse_json, parse_json_spec, print_json, print_spec, wf_json, wf_jsons,
    wf_members, lemma_parse_print_document,
};
use crate::result::{StepResultV, TaskResultStats, TaskResultV};
use crate::task::{StepV, TaskV, unique_keys};

verus! {

// ---------------------------------------------------------------------
// encoding: domain views to JSON trees
// ---------------------------------------------------------------------
/// Strings as JSON strings, elementwise.
pub open spec fn strs_json(ss: Seq<Seq<char>>) -> Seq<JsonV> {
    ss.map_values(|x: Seq<char>| JsonV::Str(x))
}

/// Key/value pairs as JSON object members, elementwise.
pub open spec fn pairs_members(ps: Seq<(Seq<char>, Seq<char>)>) -> Seq<(Seq<char>, JsonV)> {
    ps.map_values(|p: (Seq<char>, Seq<char>)| (p.0, JsonV::Str(p.1)))
}

/// The member for an optional field: present fields become one member,
/// absent fields none.
pub open spec fn opt_seg(name: Seq<char>, o: Option<JsonV>) -> Seq<(Seq<char>, JsonV)> {
    match o {
        Some(v) => seq![(name, v)],
        None => Seq::empty(),
    }
}

/// A task as a JSON object: `cmd` first, then the present optional fields
/// in a fixed order.
pub open spec fn task_json(t: TaskV) -> JsonV {
    JsonV::Obj(
        seq![("cmd"@, JsonV::Str(t.cmd))] + opt_seg(
            "args"@,
            match t.args {
                Some(a) => Some(JsonV::Arr(strs_json(a))),
                None => None,
            },
        ) + opt_seg(
            "env"@,
            match t.env {
                Some(e) => Some(JsonV::Obj(pairs_members(e))),
                None => None,
            },
        ) + opt_seg(
            "stdin"@,
            match t.stdin {
                Some(x) => Some(JsonV::Str(x)),
                None => None,
            },
        ) + opt_seg(
            "files"@,
            match t.files {
                Some(f) => Some(JsonV::Obj(pairs_members(f))),
                None => None,
            },
        ) + opt_seg(
            "working_dir"@,
            match t.working_dir {
                Some(x) => Some(JsonV::Str(x)),
                None => None,
            },
        ),
    )
}

/// Tasks as JSON objects, elementwise.
pub open spec fn tasks_json(ts: Seq<TaskV>) -> Seq<JsonV> {
    ts.map_values(|t: TaskV| task_json(t))
}

/// A step: an object for a single task, an array for a parallel batch.
pub open spec fn step_json(st: StepV) -> JsonV {
    match st {
        StepV::Single(t) => task_json(t),
        StepV::Parallel(ts) => JsonV::Arr(tasks_json(ts)),
    }
}

/// A task group as a JSON array of steps.
pub open spec fn group_json(g: Seq<StepV>) -> JsonV {
    JsonV::Arr(g.map_values(|st: StepV| step_json(st)))
}

/// Statistics as a JSON object of four counters.
pub open spec fn stats_json(st: TaskResultStats) -> JsonV {
    JsonV::Obj(
        seq![
            ("memory_peak_bytes"@, JsonV::Int(st.memory_peak_bytes as int)),
            ("cpu_usage_usec"@, JsonV::Int(st.cpu_usage_usec as int)),
            ("execution_time_ms"@, JsonV::Int(st.execution_time_ms as int)),
            ("pids_peak"@, JsonV::Int(st.pids_peak as int)),
        ],
    )
}

/// A task result as a JSON object; the `error` member marks a failure.
pub open spec fn task_result_json(r: TaskResultV) -> JsonV {
    match r {
        TaskResultV::Completed { stdout, stderr, exit_code, stats } => JsonV::Obj(
            seq![
                ("stdout"@, JsonV::Str(stdout)),
                ("stderr"@, JsonV::Str(stderr)),
                ("exit_code"@, JsonV::Int(exit_code as int)),
                ("stats"@, stats_json(stats)),
            ],
        ),
        TaskResultV::Failed { error, stats } => JsonV::Obj(
            seq![("error"@, JsonV::Str(error)), ("stats"@, stats_json(stats))],
        ),
    }
}

/// Task results as JSON objects, elementwise.
pub open spec fn task_results_json(rs: Seq<TaskResultV>) -> Seq<JsonV> {
    rs.map_values(|r: TaskResultV| task_result_json(r))
}

/// A step result: an object for a single result, an array for a batch.
pub open spec fn step_result_json(sr: StepResultV) -> JsonV {
    match sr {
        StepResultV::Single(r) => task_result_json(r),
        StepResultV::Parallel(rs) => JsonV::Arr(task_results_json(rs)),
    }
}

/// A group result as a JSON array of step results.
pub open spec fn group_result_json(rs: Seq<StepResultV>) -> JsonV {
    JsonV::Arr(rs.map_values(|sr: StepResultV| step_result_json(sr)))
}

/// A runtime result, externally tagged by its variant name.
pub open spec fn runtime_result_json(r: crate::result::RuntimeResultV) -> JsonV {
    match r {
        crate::result::RuntimeResultV::Success(rs) => JsonV::Obj(
            seq![("Success"@, group_result_json(rs))],
        ),
        crate::result::RuntimeResultV::ContainerSetupFailed { error } => JsonV::Obj(
            seq![
                ("ContainerSetupFailed"@, JsonV::Obj(seq![("error"@, JsonV::Str(error))])),
            ],
        ),
    }
}

// ---------------------------------------------------------------------
// decoding: JSON trees to domain views
// ---------------------------------------------------------------------
/// The strings of an all-string JSON array.
pub open spec fn strs_of_json(items: Seq<JsonV>) -> Option<Seq<Seq<char>>>
    decreases items.len(),
{
    if items.len() == 0 {
        Some(Seq::empty())
    } else if items.first() is Str {
        match strs_of_json(items.drop_first()) {
            Some(rest) => Some(seq![items.first()->Str_0] + rest),
            None => None,
        }
    } else {
        None
    }
}

/// The key/value pairs of an all-string JSON object.
pub open spec fn pairs_of_members(fields: Seq<(Seq<char>, JsonV)>) -> Option<
    Seq<(Seq<char>, Seq<char>)>,
>
    decreases fields.len(),
{
    if fields.len() == 0 {
        Some(Seq::empty())
    } else if fields.first().1 is Str {
        match pairs_of_members(fields.drop_first()) {
            Some(rest) => Some(seq![(fields.first().0, fields.first().1->Str_0)] + rest),
            None => None,
        }
    } else {
        None
    }
}

/// Partial task while its members are read in order.
pub struct TaskBuild {
    pub cmd: Option<Seq<char>>,
    pub args: Option<Seq<Seq<char>>>,
    pub env: Option<Seq<(Seq<char>, Seq<char>)>>,
    pub stdin: Option<Seq<char>>,
    pub files: Option<Seq<(Seq<char>, Seq<char>)>>,
    pub working_dir: Option<Seq<char>>,
}

pub open spec fn empty_build() -> TaskBuild {
    TaskBuild { cmd: None, args: None, env: None, stdin: None, files: None, working_dir: None }
}

/// Read a task's members in order: `cmd` is required, a non-empty string;
/// each optional field may appear at most once, as its JSON shape or as
/// `null`; mappings must have unique keys; unknown members are ignored.
pub open spec fn task_of_fields(fields: Seq<(Seq<char>, JsonV)>, b: TaskBuild) -> Option<TaskV>
    decreases fields.len(),
{
    if fields.len() == 0 {
        match b.cmd {
            Some(c) => Some(
                TaskV {
                    cmd: c,
                    args: b.args,
                    env: b.env,
                    stdin: b.stdin,
                    files: b.files,
                    working_dir: b.working_dir,
                },
            ),
            None => None,
        }
    } else {
        let k = fields.first().0;
        let v = fields.first().1;
        let rest = fields.drop_first();
        if k == "cmd"@ {
            if b.cmd is None && v is Str && v->Str_0.len() > 0 {
                task_of_fields(rest, TaskBuild { cmd: Some(v->Str_0), ..b })
            } else {
                None
            }
        } else if k == "args"@ {
            if v is Null {
                task_of_fields(rest, b)
            } else if b.args is None && v is Arr && strs_of_json(v->Arr_0) is Some {
                task_of_fields(rest, TaskBuild { args: strs_of_json(v->Arr_0), ..b })
            } else {
                None
            }
        } else if k == "env"@ {
            if v is Null {
                task_of_fields(rest, b)
            } else if b.env is None && v is Obj && pairs_of_members(v->Obj_0) is Some
                && unique_keys(pairs_of_members(v->Obj_0)->0) {
                task_of_fields(rest, TaskBuild { env: pairs_of_members(v->Obj_0), ..b })
            } else {
                None
            }
        } else if k == "stdin"@ {
            if v is Null {
                task_of_fields(rest, b)
            } else if b.stdin is None && v is Str {
                task_of_fields(rest, TaskBuild { stdin: Some(v->Str_0), ..b })
            } else {
                None
            }
        } else if k == "files"@ {
            if v is Null {
                task_of_fields(rest, b)
            } else if b.files is None && v is Obj && pairs_of_members(v->Obj_0) is Some
                && unique_keys(pairs_of_members(v->Obj_0)->0) {
                task_of_fields(rest, TaskBuild { files: pairs_of_members(v->Obj_0), ..b })
            } else {
                None
            }
        } else if k == "working_dir"@ {
            if v is Null {
                task_of_fields(rest, b)
            } else if b.working_dir is None && v is Str {
                task_of_fields(rest, TaskBuild { working_dir: Some(v->Str_0), ..b })
            } else {
                None
            }
        } else {
            // unknown members are ignored, whatever value they carry
            task_of_fields(rest, b)
        }
    }
}

/// A task from a JSON value: it must be an object.
pub open spec fn task_of_json(v: JsonV) -> Option<TaskV> {
    match v {
        JsonV::Obj(fields) => task_of_fields(fields, empty_build()),
        _ => None,
    }
}

/// Tasks from an array's elements, each an object.
pub open spec fn tasks_of_json(items: Seq<JsonV>) -> Option<Seq<TaskV>>
    decreases items.len(),
{
    if items.len() == 0 {
        Some(Seq::empty())
    } else {
        match task_of_json(items.first()) {
            Some(t) => match tasks_of_json(items.drop_first()) {
                Some(rest) => Some(seq![t] + rest),
                None => None,
            },
            None => None,
        }
    }
}

/// A step from a JSON value: an object is a single task, an array is a
/// parallel batch; anything else is rejected.
pub open spec fn step_of_json(v: JsonV) -> Option<StepV> {
    match v {
        JsonV::Obj(_) => match task_of_json(v) {
            Some(t) => Some(StepV::Single(t)),
            None => None,
        },
        JsonV::Arr(items) => match tasks_of_json(items) {
            Some(ts) => Some(StepV::Parallel(ts)),
            None => None,
        },
        _ => None,
    }
}

/// Steps from an array's elements.
pub open spec fn steps_of_json(items: Seq<JsonV>) -> Option<Seq<StepV>>
    decreases items.len(),
{
    if items.len() == 0 {
        Some(Seq::empty())
    } else {
        match step_of_json(items.first()) {
            Some(st) => match steps_of_json(items.drop_first()) {
                Some(rest) => Some(seq![st] + rest),
                None => None,
            },
            None => None,
        }
    }
}

/// A task group from a JSON value: it must be an array of steps.
pub open spec fn group_of_json(v: JsonV) -> Option<Seq<StepV>> {
    match v {
        JsonV::Arr(items) => steps_of_json(items),
        _ => None,
    }
}

/// A 64-bit counter from a JSON value.
pub open spec fn u64_of_json(v: JsonV) -> Option<u64> {
    match v {
        JsonV::Int(i) => if 0 <= i <= u64::MAX {
            Some(i as u64)
        } else {
            None
        },
        _ => None,
    }
}

/// Partial statistics while members are read in order.
pub struct StatsBuild {
    pub memory_peak_bytes: Option<u64>,
    pub cpu_usage_usec: Option<u64>,
    pub execution_time_ms: Option<u64>,
    pub pids_peak: Option<u64>,
}

pub open spec fn empty_stats_build() -> StatsBuild {
    StatsBuild { memory_peak_bytes: None, cpu_usage_usec: None, execution_time_ms: None, pids_peak: None }
}

/// Read the statistics members in order; all four counters are required,
/// each at most once; unknown members are ignored.
pub open spec fn stats_of_fields(fields: Seq<(Seq<char>, JsonV)>, b: StatsBuild) -> Option<
    TaskResultStats,
>
    decreases fields.len(),
{
    if fields.len() == 0 {
        if b.memory_peak_bytes is Some && b.cpu_usage_usec is Some && b.execution_time_ms is Some
            && b.pids_peak is Some {
            Some(
                TaskResultStats {
                    memory_peak_bytes: b.memory_peak_bytes->0,
                    cpu_usage_usec: b.cpu_usage_usec->0,
                    execution_time_ms: b.execution_time_ms->0,
                    pids_peak: b.pids_peak->0,
                },
            )
        } else {
            None
        }
    } else {
        let k = fields.first().0;
        let v = fields.first().1;
        let rest = fields.drop_first();
        if k == "memory_peak_bytes"@ {
            if b.memory_peak_bytes is None && u64_of_json(v) is Some {
                stats_of_fields(rest, StatsBuild { memory_peak_bytes: u64_of_json(v), ..b })
            } else {
                None
            }
        } else if k == "cpu_usage_usec"@ {
            if b.cpu_usage_usec is None && u64_of_json(v) is Some {
                stats_of_fields(rest, StatsBuild { cpu_usage_usec: u64_of_json(v), ..b })
            } else {
                None
            }
        } else if k == "execution_time_ms"@ {
            if b.execution_time_ms is None && u64_of_json(v) is Some {
                stats_of_fields(rest, StatsBuild { execution_time_ms: u64_of_json(v), ..b })
            } else {
                None
            }
        } else if k == "pids_peak"@ {
            if b.pids_peak is None && u64_of_json(v) is Some {
                stats_of_fields(rest, StatsBuild { pids_peak: u64_of_json(v), ..b })
            } else {
                None
            }
        } else {
            // unknown members are ignored, whatever value they carry
            stats_of_fields(rest, b)
        }
    }
}

pub open spec fn stats_of_json(v: JsonV) -> Option<TaskResultStats> {
    match v {
        JsonV::Obj(fields) => stats_of_fields(fields, empty_stats_build()),
        _ => None,
    }
}

/// Partial task result while members are read in order.
pub struct ResultBuild {
    pub stdout: Option<Seq<char>>,
    pub stderr: Option<Seq<char>>,
    pub exit_code: Option<i32>,
    pub error: Option<Seq<char>>,
    pub stats: Option<TaskResultStats>,
}

pub open spec fn empty_result_build() -> ResultBuild {
    ResultBuild { stdout: None, stderr: None, exit_code: None, error: None, stats: None }
}

/// Read a task result's members in order. `stats` is always required; an
/// `error` member makes the result a failure, otherwise `stdout`, `stderr`
/// and `exit_code` are all required. Of a repeated member the last
/// occurrence wins; unknown members are ignored.
pub open spec fn task_result_of_fields(fields: Seq<(Seq<char>, JsonV)>, b: ResultBuild) -> Option<
    TaskResultV,
>
    decreases fields.len(),
{
    if fields.len() == 0 {
        match b.stats {
            Some(st) => match b.error {
                Some(e) => Some(TaskResultV::Failed { error: e, stats: st }),
                None => if b.stdout is Some && b.stderr is Some && b.exit_code is Some {
                    Some(
                        TaskResultV::Completed {
                            stdout: b.stdout->0,
                            stderr: b.stderr->0,
                            exit_code: b.exit_code->0,
                            stats: st,
                        },
                    )
                } else {
                    None
                },
            },
            None => None,
        }
    } else {
        let k = fields.first().0;
        let v = fields.first().1;
        let rest = fields.drop_first();
        if k == "stdout"@ {
            if v is Str {
                task_result_of_fields(rest, ResultBuild { stdout: Some(v->Str_0), ..b })
            } else {
                None
            }
        } else if k == "stderr"@ {
            if v is Str {
                task_result_of_fields(rest, ResultBuild { stderr: Some(v->Str_0), ..b })
            } else {
                None
            }
        } else if k == "exit_code"@ {
            if v is Int && i32::MIN <= v->Int_0 <= i32::MAX {
                task_result_of_fields(rest, ResultBuild { exit_code: Some(v->Int_0 as i32), ..b })
            } else {
                None
            }
        } else if k == "error"@ {
            if v is Str {
                task_result_of_fields(rest, ResultBuild { error: Some(v->Str_0), ..b })
            } else {
                None
            }
        } else if k == "stats"@ {
            if stats_of_json(v) is Some {
                task_result_of_fields(rest, ResultBuild { stats: stats_of_json(v), ..b })
            } else {
                None
            }
        } else {
            // unknown members are ignored, whatever value they carry
            task_result_of_fields(rest, b)
        }
    }
}

pub open spec fn task_result_of_json(v: JsonV) -> Option<TaskResultV> {
    match v {
        JsonV::Obj(fields) => task_result_of_fields(fields, empty_result_build()),
        _ => None,
    }
}

pub open spec fn task_results_of_json(items: Seq<JsonV>) -> Option<Seq<TaskResultV>>
    decreases items.len(),
{
    if items.len() == 0 {
        Some(Seq::empty())
    } else {
        match task_result_of_json(items.first()) {
            Some(r) => match task_results_of_json(items.drop_first()) {
                Some(rest) => Some(seq![r] + rest),
                None => None,
            },
            None => None,
        }
    }
}

pub open spec fn step_result_of_json(v: JsonV) -> Option<StepResultV> {
    match v {
        JsonV::Obj(_) => match task_result_of_json(v) {
            Some(r) => Some(StepResultV::Single(r)),
            None => None,
        },
        JsonV::Arr(items) => match task_results_of_json(items) {
            Some(rs) => Some(StepResultV::Parallel(rs)),
            None => None,
        },
        _ => None,
    }
}

pub open spec fn step_results_of_json(items: Seq<JsonV>) -> Option<Seq<StepResultV>>
    decreases items.len(),
{
    if items.len() == 0 {
        Some(Seq::empty())
    } else {
        match step_result_of_json(items.first()) {
            Some(sr) => match step_results_of_json(items.drop_first()) {
                Some(rest) => Some(seq![sr] + rest),
                None => None,
            },
            None => None,
        }
    }
}

pub open spec fn group_result_of_json(v: JsonV) -> Option<Seq<StepResultV>> {
    match v {
        JsonV::Arr(items) => step_results_of_json(items),
        _ => None,
    }
}

pub open spec fn runtime_result_of_json(v: JsonV) -> Option<crate::result::RuntimeResultV> {
    match v {
        JsonV::Obj(fields) => if fields.len() == 1 && fields[0].0 == "Success"@ {
            match group_result_of_json(fields[0].1) {
                Some(rs) => Some(crate::result::RuntimeResultV::Success(rs)),
                None => None,
            }
        } else if fields.len() == 1 && fields[0].0 == "ContainerSetupFailed"@ {
            match fields[0].1 {
                JsonV::Obj(inner) => if inner.len() == 1 && inner[0].0 == "error"@ && inner[0].1
                    is Str {
                    Some(
                        crate::result::RuntimeResultV::ContainerSetupFailed {
                            error: inner[0].1->Str_0,
                        },
                    )
                } else {
                    None
                },
                _ => None,
            }
        } else {
            None
        },
        _ => None,
    }
}

// ---------------------------------------------------------------------
// whole documents
// ---------------------------------------------------------------------
/// The encoded text of a task group.
pub open spec fn encode_task_group_spec(g: Seq<StepV>) -> Seq<char> {
    print_spec(group_json(g))
}

/// The task group read from text.
pub open spec fn decode_task_group_spec(s: Seq<char>) -> Option<Seq<StepV>> {
    match parse_json_spec(s) {
        Some(v) => group_of_json(v),
        None => None,
    }
}

/// The encoded text of a group result.
pub open spec fn encode_group_result_spec(rs: Seq<StepResultV>) -> Seq<char> {
    print_spec(group_result_json(rs))
}

/// The group result read from text.
pub open spec fn decode_group_result_spec(s: Seq<char>) -> Option<Seq<StepResultV>> {
    match parse_json_spec(s) {
        Some(v) => group_result_of_json(v),
        None => None,
    }
}

/// The encoded text of a runtime result.
pub open spec fn encode_runtime_result_spec(r: crate::result::RuntimeResultV) -> Seq<char> {
    print_spec(runtime_result_json(r))
}

/// The runtime result read from text.
pub open spec fn decode_runtime_result_spec(s: Seq<char>) -> Option<
    crate::result::RuntimeResultV,
> {
    match parse_json_spec(s) {
        Some(v) => runtime_result_of_json(v),
        None => None,
    }
}

// ---------------------------------------------------------------------
// executable encoding
// ---------------------------------------------------------------------
fn json_of_string(s: &String) -> (j: Json)
    ensures
        j@ == JsonV::Str(s@),
{
    Json::Str(crate::text::chars_of_str(s.as_str()))
}

fn json_of_str_vec(v: &Vec<String>) -> (j: Json)
    ensures
        j@ == JsonV::Arr(strs_json(v.deep_view())),
{
    let mut items: Vec<Json> = Vec::new();
    let mut i: usize = 0;
    while i < v.len()
        invariant
            0 <= i <= v@.len(),
            items@.len() == i,
            forall|k: int|
                0 <= k < i ==> crate::json::json_view(#[trigger] items@[k]) == JsonV::Str(
                    v@[k]@,
                ),
        decreases v@.len() - i,
    {
        items.push(json_of_string(&v[i]));
        i = i + 1;
    }
    proof {
        crate::json::lemma_json_views_index(items@, 0);
        let lhs = crate::json::json_views(items@, 0);
        let rhs = strs_json(v.deep_view());
        assert(lhs.len() == rhs.len());
        assert forall|k: int| 0 <= k < lhs.len() implies lhs[k] == rhs[k] by {
            assert(lhs[k] == crate::json::json_view(items@[k]));
            assert(rhs[k] == JsonV::Str(v.deep_view()[k]));
            assert(v.deep_view()[k] == v@[k]@);
        }
        assert(lhs =~= rhs);
    }
    Json::Arr(items)
}

fn json_of_pair_vec(v: &Vec<(String, String)>) -> (j: Json)
    ensures
        j@ == JsonV::Obj(pairs_members(v.deep_view())),
{
    let mut fields: Vec<(Vec<char>, Json)> = Vec::new();
    let mut i: usize = 0;
    while i < v.len()
        invariant
            0 <= i <= v@.len(),
            fields@.len() == i,
            forall|k: int|
                0 <= k < i ==> (#[trigger] fields@[k]).0@ == v@[k].0@ && crate::json::json_view(
                    fields@[k].1,
                ) == JsonV::Str(v@[k].1@),
        decreases v@.len() - i,
    {
        let key = crate::text::chars_of_str(v[i].0.as_str());
        let val = json_of_string(&v[i].1);
        fields.push((key, val));
        i = i + 1;
    }
    proof {
        crate::json::lemma_member_views_index(fields@, 0);
        let lhs = crate::json::member_views(fields@, 0);
        let rhs = pairs_members(v.deep_view());
        assert(lhs.len() == rhs.len());
        assert forall|k: int| 0 <= k < lhs.len() implies lhs[k] == rhs[k] by {
            assert(lhs[k] == (fields@[k].0@, crate::json::json_view(fields@[k].1)));
            assert(rhs[k] == (v.deep_view()[k].0, JsonV::Str(v.deep_view()[k].1)));
            assert(v.deep_view()[k] == (v@[k].0@, v@[k].1@));
        }
        assert(lhs =~= rhs);
    }
    Json::Obj(fields)
}

/// Build the JSON tree of one task.
pub fn task_to_json_exec(t: &crate::task::Task) -> (j: Json)
    ensures
        j@ == task_json(t@),
{
    let mut fields: Vec<(Vec<char>, Json)> = Vec::new();
    fields.push((crate::text::chars_of_str("cmd"), json_of_string(&t.cmd)));
    let ghost s1 = seq![("cmd"@, JsonV::Str(t@.cmd))];
    proof {
        crate::json::lemma_member_views_index(fields@, 0);
        assert(crate::json::member_views(fields@, 0) =~= s1);
    }
    match &t.args {
        Some(a) => {
            let key = crate::text::chars_of_str("args");
            let val = json_of_str_vec(a);
            let ghost kg = key;
            let ghost vg = val;
            let ghost prev = fields@;
            fields.push((key, val));
            proof {
                crate::json::lemma_member_views_push(prev, kg, vg);
                assert(crate::json::member_views(fields@, 0) =~= s1 + seq![
                    ("args"@, JsonV::Arr(strs_json(a.deep_view()))),
                ]);
            }
        },
        None => {},
    }
    let ghost s2 = s1 + opt_seg(
        "args"@,
        match t@.args {
            Some(a) => Some(JsonV::Arr(strs_json(a))),
            None => None,
        },
    );
    proof {
        assert(crate::json::member_views(fields@, 0) =~= s2);
    }
    match &t.env {
        Some(e) => {
            let key = crate::text::chars_of_str("env");
            let val = json_of_pair_vec(e);
            let ghost kg = key;
            let ghost vg = val;
            let ghost prev = fields@;
            fields.push((key, val));
            proof {
                crate::json::lemma_member_views_push(prev, kg, vg);
                assert(crate::json::member_views(fields@, 0) =~= s2 + seq![
                    ("env"@, JsonV::Obj(pairs_members(e.deep_view()))),
                ]);
            }
        },
        None => {},
    }
    let ghost s3 = s2 + opt_seg(
        "env"@,
        match t@.env {
            Some(e) => Some(JsonV::Obj(pairs_members(e))),
            None => None,
        },
    );
    proof {
        assert(crate::json::member_views(fields@, 0) =~= s3);
    }
    match &t.stdin {
        Some(x) => {
            let key = crate::text::chars_of_str("stdin");
            let val = json_of_string(x);
            let ghost kg = key;
            let ghost vg = val;
            let ghost prev = fields@;
            fields.push((key, val));
            proof {
                crate::json::lemma_member_views_push(prev, kg, vg);
                assert(crate::json::member_views(fields@, 0) =~= s3 + seq![
                    ("stdin"@, JsonV::Str(x@)),
                ]);
            }
        },
        None => {},
    }
    let ghost s4 = s3 + opt_seg(
        "stdin"@,
        match t@.stdin {
            Some(x) => Some(JsonV::Str(x)),
            None => None,
        },
    );
    proof {
        assert(crate::json::member_views(fields@, 0) =~= s4);
    }
    match &t.files {
        Some(f) => {
            let key = crate::text::chars_of_str("files");
            let val = json_of_pair_vec(f);
            let ghost kg = key;
            let ghost vg = val;
            let ghost prev = fields@;
            fields.push((key, val));
            proof {
                crate::json::lemma_member_views_push(prev, kg, vg);
                assert(crate::json::member_views(fields@, 0) =~= s4 + seq![
                    ("files"@, JsonV::Obj(pairs_members(f.deep_view()))),
                ]);
            }
        },
        None => {},
    }
    let ghost s5 = s4 + opt_seg(
        "files"@,
        match t@.files {
            Some(f) => Some(JsonV::Obj(pairs_members(f))),
            None => None,
        },
    );
    proof {
        assert(crate::json::member_views(fields@, 0) =~= s5);
    }
    match &t.working_dir {
        Some(x) => {
            let key = crate::text::chars_of_str("working_dir");
            let val = json_of_string(x);
            let ghost kg = key;
            let ghost vg = val;
            let ghost prev = fields@;
            fields.push((key, val));
            proof {
                crate::json::lemma_member_views_push(prev, kg, vg);
                assert(crate::json::member_views(fields@, 0) =~= s5 + seq![
                    ("working_dir"@, JsonV::Str(x@)),
                ]);
            }
        },
        None => {},
    }
    let ghost s6 = s5 + opt_seg(
        "working_dir"@,
        match t@.working_dir {
            Some(x) => Some(JsonV::Str(x)),
            None => None,
        },
    );
    proof {
        assert(crate::json::member_views(fields@, 0) =~= s6);
        assert(s6 =~= task_json(t@)->Obj_0);
    }
    Json::Obj(fields)
}

/// Build the JSON tree of one step: an object or an array.
pub fn step_to_json_exec(st: &crate::task::ExecutionStep) -> (j: Json)
    ensures
        j@ == step_json(st@),
{
    match st {
        crate::task::ExecutionStep::Single(t) => task_to_json_exec(t),
        crate::task::ExecutionStep::Parallel(ts) => {
            let mut items: Vec<Json> = Vec::new();
            let mut i: usize = 0;
            while i < ts.len()
                invariant
                    0 <= i <= ts@.len(),
                    items@.len() == i,
                    forall|k: int|
                        0 <= k < i ==> crate::json::json_view(#[trigger] items@[k]) == task_json(
                            ts@[k]@,
                        ),
                decreases ts@.len() - i,
            {
                items.push(task_to_json_exec(&ts[i]));
                i = i + 1;
            }
            proof {
                crate::json::lemma_json_views_index(items@, 0);
                let lhs = crate::json::json_views(items@, 0);
                let rhs = tasks_json(ts.deep_view());
                assert(lhs.len() == rhs.len());
                assert forall|k: int| 0 <= k < lhs.len() implies lhs[k] == rhs[k] by {
                    assert(lhs[k] == crate::json::json_view(items@[k]));
                    assert(rhs[k] == task_json(ts.deep_view()[k]));
                    assert(ts.deep_view()[k] == ts@[k]@);
                }
                assert(lhs =~= rhs);
            }
            Json::Arr(items)
        },
    }
}

/// Build the JSON tree of a whole group.
pub fn group_to_json_exec(g: &crate::task::TaskGroup) -> (j: Json)
    ensures
        j@ == group_json(g.deep_view()),
{
    let mut items: Vec<Json> = Vec::new();
    let mut i: usize = 0;
    while i < g.len()
        invariant
            0 <= i <= g@.len(),
            items@.len() == i,
            forall|k: int|
                0 <= k < i ==> crate::json::json_view(#[trigger] items@[k]) == step_json(g@[k]@),
        decreases g@.len() - i,
    {
        items.push(step_to_json_exec(&g[i]));
        i = i + 1;
    }
    proof {
        crate::json::lemma_json_views_index(items@, 0);
        let lhs = crate::json::json_views(items@, 0);
        let rhs = group_json(g.deep_view())->Arr_0;
        assert(lhs.len() == rhs.len());
        assert forall|k: int| 0 <= k < lhs.len() implies lhs[k] == rhs[k] by {
            assert(lhs[k] == crate::json::json_view(items@[k]));
            assert(rhs[k] == step_json(g.deep_view()[k]));
            assert(g.deep_view()[k] == g@[k]@);
        }
        assert(lhs =~= rhs);
    }
    Json::Arr(items)
}

/// Encode a task group as its canonical wire text.
pub fn encode_task_group(g: &crate::task::TaskGroup) -> (s: String)
    ensures
        s@ == encode_task_group_spec(g.deep_view()),
{
    let j = group_to_json_exec(g);
    let chars = print_json(&j);
    crate::text::string_from_chars(&chars)
}

fn stats_to_json_exec(st: &TaskResultStats) -> (j: Json)
    ensures
        j@ == stats_json(*st),
{
    let mut fields: Vec<(Vec<char>, Json)> = Vec::new();
    fields.push(
        (crate::text::chars_of_str("memory_peak_bytes"), Json::Int(st.memory_peak_bytes as i128)),
    );
    fields.push(
        (crate::text::chars_of_str("cpu_usage_usec"), Json::Int(st.cpu_usage_usec as i128)),
    );
    fields.push(
        (crate::text::chars_of_str("execution_time_ms"), Json::Int(st.execution_time_ms as i128)),
    );
    fields.push((crate::text::chars_of_str("pids_peak"), Json::Int(st.pids_peak as i128)));
    proof {
        crate::json::lemma_member_views_index(fields@, 0);
        let lhs = crate::json::member_views(fields@, 0);
        let rhs = stats_json(*st)->Obj_0;
        assert(lhs.len() == rhs.len());
        assert forall|k: int| 0 <= k < lhs.len() implies lhs[k] == rhs[k] by {
            assert(lhs[k] == (fields@[k].0@, crate::json::json_view(fields@[k].1)));
        }
        assert(lhs =~= rhs);
    }
    Json::Obj(fields)
}

/// Build the JSON tree of one task result.
pub fn task_result_to_json_exec(r: &crate::result::TaskResult) -> (j: Json)
    ensures
        j@ == task_result_json(r@),
{
    match r {
        crate::result::TaskResult::Completed { stdout, stderr, exit_code, stats } => {
            let mut fields: Vec<(Vec<char>, Json)> = Vec::new();
            fields.push((crate::text::chars_of_str("stdout"), json_of_string(stdout)));
            fields.push((crate::text::chars_of_str("stderr"), json_of_string(stderr)));
            fields.push((crate::text::chars_of_str("exit_code"), Json::Int(*exit_code as i128)));
            fields.push((crate::text::chars_of_str("stats"), stats_to_json_exec(stats)));
            proof {
                crate::json::lemma_member_views_index(fields@, 0);
                let lhs = crate::json::member_views(fields@, 0);
                let rhs = task_result_json(r@)->Obj_0;
                assert(lhs.len() == rhs.len());
                assert forall|k: int| 0 <= k < lhs.len() implies lhs[k] == rhs[k] by {
                    assert(lhs[k] == (fields@[k].0@, crate::json::json_view(fields@[k].1)));
                }
                assert(lhs =~= rhs);
            }
            Json::Obj(fields)
        },
        crate::result::TaskResult::Failed { error, stats } => {
            let mut fields: Vec<(Vec<char>, Json)> = Vec::new();
            fields.push((crate::text::chars_of_str("error"), json_of_string(error)));
            fields.push((crate::text::chars_of_str("stats"), stats_to_json_exec(stats)));
            proof {
                crate::json::lemma_member_views_index(fields@, 0);
                let lhs = crate::json::member_views(fields@, 0);
                let rhs = task_result_json(r@)->Obj_0;
                assert(lhs.len() == rhs.len());
                assert forall|k: int| 0 <= k < lhs.len() implies lhs[k] == rhs[k] by {
                    assert(lhs[k] == (fields@[k].0@, crate::json::json_view(fields@[k].1)));
                }
                assert(lhs =~= rhs);
            }
            Json::Obj(fields)
        },
    }
}

/// Build the JSON tree of one step result.
pub fn step_result_to_json_exec(sr: &crate::result::ExecutionStepResult) -> (j: Json)
    ensures
        j@ == step_result_json(sr@),
{
    match sr {
        crate::result::ExecutionStepResult::Single(r) => task_result_to_json_exec(r),
        crate::result::ExecutionStepResult::Parallel(rs) => {
            let mut items: Vec<Json> = Vec::new();
            let mut i: usize = 0;
            while i < rs.len()
                invariant
                    0 <= i <= rs@.len(),
                    items@.len() == i,
                    forall|k: int|
                        0 <= k < i ==> crate::json::json_view(#[trigger] items@[k])
                            == task_result_json(rs@[k]@),
                decreases rs@.len() - i,
            {
                items.push(task_result_to_json_exec(&rs[i]));
                i = i + 1;
            }
            proof {
                crate::json::lemma_json_views_index(items@, 0);
                let lhs = crate::json::json_views(items@, 0);
                let rhs = task_results_json(rs.deep_view());
                assert(lhs.len() == rhs.len());
                assert forall|k: int| 0 <= k < lhs.len() implies lhs[k] == rhs[k] by {
                    assert(lhs[k] == crate::json::json_view(items@[k]));
                    assert(rhs[k] == task_result_json(rs.deep_view()[k]));
                    assert(rs.deep_view()[k] == rs@[k]@);
                }
                assert(lhs =~= rhs);
            }
            Json::Arr(items)
        },
    }
}

/// Build the JSON tree of a whole group result.
pub fn group_result_to_json_exec(rs: &crate::result::TaskGroupResult) -> (j: Json)
    ensures
        j@ == group_result_json(rs.deep_view()),
{
    let mut items: Vec<Json> = Vec::new();
    let mut i: usize = 0;
    while i < rs.len()
        invariant
            0 <= i <= rs@.len(),
            items@.len() == i,
            forall|k: int|
                0 <= k < i ==> crate::json::json_view(#[trigger] items@[k]) == step_result_json(
                    rs@[k]@,
                ),
        decreases rs@.len() - i,
    {
        items.push(step_result_to_json_exec(&rs[i]));
        i = i + 1;
    }
    proof {
        crate::json::lemma_json_views_index(items@, 0);
        let lhs = crate::json::json_views(items@, 0);
        let rhs = group_result_json(rs.deep_view())->Arr_0;
        assert(lhs.len() == rhs.len());
        assert forall|k: int| 0 <= k < lhs.len() implies lhs[k] == rhs[k] by {
            assert(lhs[k] == crate::json::json_view(items@[k]));
            assert(rhs[k] == step_result_json(rs.deep_view()[k]));
            assert(rs.deep_view()[k] == rs@[k]@);
        }
        assert(lhs =~= rhs);
    }
    Json::Arr(items)
}

/// Encode a group result as its canonical wire text.
pub fn encode_group_result(rs: &crate::result::TaskGroupResult) -> (s: String)
    ensures
        s@ == encode_group_result_spec(rs.deep_view()),
{
    let j = group_result_to_json_exec(rs);
    let chars = print_json(&j);
    crate::text::string_from_chars(&chars)
}

/// Encode a runtime result as its canonical wire text, one JSON value.
pub fn encode_runtime_result(r: &crate::result::RuntimeResult) -> (s: String)
    ensures
        s@ == encode_runtime_result_spec(r@),
{
    let j = match r {
        crate::result::RuntimeResult::Success(rs) => {
            let mut fields: Vec<(Vec<char>, Json)> = Vec::new();
            fields.push((crate::text::chars_of_str("Success"), group_result_to_json_exec(rs)));
            proof {
                crate::json::lemma_member_views_index(fields@, 0);
                let lhs = crate::json::member_views(fields@, 0);
                let rhs = runtime_result_json(r@)->Obj_0;
                assert(lhs.len() == rhs.len());
                assert forall|k: int| 0 <= k < lhs.len() implies lhs[k] == rhs[k] by {
                    assert(lhs[k] == (fields@[k].0@, crate::json::json_view(fields@[k].1)));
                }
                assert(lhs =~= rhs);
            }
            Json::Obj(fields)
        },
        crate::result::RuntimeResult::ContainerSetupFailed { error } => {
            let mut inner: Vec<(Vec<char>, Json)> = Vec::new();
            inner.push((crate::text::chars_of_str("error"), json_of_string(error)));
            let ghost inner_view = crate::json::member_views(inner@, 0);
            proof {
                crate::json::lemma_member_views_index(inner@, 0);
                assert(inner_view =~= seq![("error"@, JsonV::Str(r@->ContainerSetupFailed_error))]);
            }
            let mut fields: Vec<(Vec<char>, Json)> = Vec::new();
            fields.push((crate::text::chars_of_str("ContainerSetupFailed"), Json::Obj(inner)));
            proof {
                crate::json::lemma_member_views_index(fields@, 0);
                let lhs = crate::json::member_views(fields@, 0);
                let rhs = runtime_result_json(r@)->Obj_0;
                assert(lhs.len() == rhs.len());
                assert forall|k: int| 0 <= k < lhs.len() implies lhs[k] == rhs[k] by {
                    assert(lhs[k] == (fields@[k].0@, crate::json::json_view(fields@[k].1)));
                }
                assert(lhs =~= rhs);
            }
            Json::Obj(fields)
        },
    };
    let chars = print_json(&j);
    crate::text::string_from_chars(&chars)
}

// ---------------------------------------------------------------------
// executable decoding
// ---------------------------------------------------------------------
fn strings_of_json_arr(items: &Vec<Json>) -> (r: Option<Vec<String>>)
    ensures
        match strs_of_json(crate::json::json_views(items@, 0)) {
            Some(ss) => r matches Some(v) && v.deep_view() == ss,
            None => r is None,
        },
{
    let mut out: Vec<String> = Vec::new();
    let mut i: usize = 0;
    proof {
        match strs_of_json(crate::json::json_views(items@, 0)) {
            Some(ss) => {
                assert(out.deep_view() + ss =~= ss);
            },
            None => {},
        }
    }
    while i < items.len()
        invariant
            0 <= i <= items@.len(),
            strs_of_json(crate::json::json_views(items@, 0)) == (match strs_of_json(
                crate::json::json_views(items@, i as int),
            ) {
                Some(rest) => Some(out.deep_view() + rest),
                None => None::<Seq<Seq<char>>>,
            }),
        decreases items@.len() - i,
    {
        let ghost suffix = crate::json::json_views(items@, i as int);
        proof {
            assert(suffix.first() == crate::json::json_view(items@[i as int]));
            assert(suffix.drop_first() =~= crate::json::json_views(items@, i + 1));
        }
        match &items[i] {
            Json::Str(s) => {
                let ghost before = out.deep_view();
                out.push(crate::text::string_from_chars(s));
                proof {
                    assert(out.deep_view() =~= before + seq![s@]);
                    match strs_of_json(crate::json::json_views(items@, i + 1)) {
                        Some(rest) => {
                            assert(before + (seq![s@] + rest) =~= (before + seq![s@]) + rest);
                        },
                        None => {},
                    }
                }
            },
            _ => {
                proof {
                    assert(strs_of_json(suffix) is None);
                    assert(strs_of_json(crate::json::json_views(items@, 0)) is None);
                }
                return None;
            },
        }
        i = i + 1;
    }
    proof {
        assert(crate::json::json_views(items@, i as int) =~= Seq::<JsonV>::empty());
        assert(strs_of_json(Seq::<JsonV>::empty()) == Some(Seq::<Seq<char>>::empty()));
        assert(out.deep_view() + Seq::<Seq<char>>::empty() =~= out.deep_view());
    }
    Some(out)
}

fn pairs_of_json_obj(fields: &Vec<(Vec<char>, Json)>) -> (r: Option<Vec<(String, String)>>)
    ensures
        match pairs_of_members(crate::json::member_views(fields@, 0)) {
            Some(ps) => r matches Some(v) && v.deep_view() == ps,
            None => r is None,
        },
{
    let mut out: Vec<(String, String)> = Vec::new();
    let mut i: usize = 0;
    proof {
        match pairs_of_members(crate::json::member_views(fields@, 0)) {
            Some(ps) => {
                assert(out.deep_view() + ps =~= ps);
            },
            None => {},
        }
    }
    while i < fields.len()
        invariant
            0 <= i <= fields@.len(),
            pairs_of_members(crate::json::member_views(fields@, 0)) == (match pairs_of_members(
                crate::json::member_views(fields@, i as int),
            ) {
                Some(rest) => Some(out.deep_view() + rest),
                None => None::<Seq<(Seq<char>, Seq<char>)>>,
            }),
        decreases fields@.len() - i,
    {
        let ghost suffix = crate::json::member_views(fields@, i as int);
        proof {
            assert(suffix.first() == (fields@[i as int].0@, crate::json::json_view(
                fields@[i as int].1,
            )));
            assert(suffix.drop_first() =~= crate::json::member_views(fields@, i + 1));
        }
        match &fields[i].1 {
            Json::Str(s) => {
                let ghost before = out.deep_view();
                let key = crate::text::string_from_chars(&fields[i].0);
                let val = crate::text::string_from_chars(s);
                out.push((key, val));
                proof {
                    assert(out.deep_view() =~= before + seq![(fields@[i as int].0@, s@)]);
                    match pairs_of_members(crate::json::member_views(fields@, i + 1)) {
                        Some(rest) => {
                            assert(before + (seq![(fields@[i as int].0@, s@)] + rest) =~= (before
                                + seq![(fields@[i as int].0@, s@)]) + rest);
                        },
                        None => {},
                    }
                }
            },
            _ => {
                proof {
                    assert(pairs_of_members(suffix) is None);
                    assert(pairs_of_members(crate::json::member_views(fields@, 0)) is None);
                }
                return None;
            },
        }
        i = i + 1;
    }
    proof {
        assert(crate::json::member_views(fields@, i as int) =~= Seq::<(Seq<char>, JsonV)>::empty());
        assert(pairs_of_members(Seq::<(Seq<char>, JsonV)>::empty()) == Some(
            Seq::<(Seq<char>, Seq<char>)>::empty(),
        ));
        assert(out.deep_view() + Seq::<(Seq<char>, Seq<char>)>::empty() =~= out.deep_view());
    }
    Some(out)
}

/// Whether the pairs' keys are pairwise distinct.
fn pairs_unique(v: &Vec<(String, String)>) -> (r: bool)
    ensures
        r == unique_keys(v.deep_view()),
{
    let mut i: usize = 0;
    while i < v.len()
        invariant
            0 <= i <= v@.len(),
            forall|a: int, b: int|
                0 <= a < b < i ==> (#[trigger] v.deep_view()[a]).0 != (
                #[trigger] v.deep_view()[b]).0,
        decreases v@.len() - i,
    {
        let mut j: usize = 0;
        while j < i
            invariant
                0 <= j <= i < v@.len(),
                forall|a: int, b: int|
                    0 <= a < b < i ==> (#[trigger] v.deep_view()[a]).0 != (
                    #[trigger] v.deep_view()[b]).0,
                forall|a: int| 0 <= a < j ==> (#[trigger] v.deep_view()[a]).0 != v.deep_view()[
                    i as int].0,
            decreases i - j,
        {
            if crate::text::str_eq(v[j].0.as_str(), v[i].0.as_str()) {
                proof {
                    assert(v.deep_view()[j as int].0 == v.deep_view()[i as int].0);
                    assert(!unique_keys(v.deep_view()));
                }
                return false;
            }
            j = j + 1;
        }
        i = i + 1;
    }
    proof {
        assert(unique_keys(v.deep_view()));
    }
    true
}

/// Read one task from a JSON tree.
pub fn task_of_json_exec(j: &Json) -> (r: Option<crate::task::Task>)
    ensures
        match task_of_json(j@) {
            Some(tv) => r matches Some(t) && t@ == tv,
            None => r is None,
        },
{
    let fields = match j {
        Json::Obj(f) => f,
        _ => {
            proof {
                assert(!(j@ is Obj));
            }
            return None;
        },
    };
    proof {
        assert(j@ == JsonV::Obj(crate::json::member_views(fields@, 0)));
    }
    let mut cmd: Option<String> = None;
    let mut args: Option<Vec<String>> = None;
    let mut env: Option<Vec<(String, String)>> = None;
    let mut stdin: Option<String> = None;
    let mut files: Option<Vec<(String, String)>> = None;
    let mut working_dir: Option<String> = None;
    let mut i: usize = 0;
    while i < fields.len()
        invariant
            0 <= i <= fields@.len(),
            j@ == JsonV::Obj(crate::json::member_views(fields@, 0)),
            task_of_fields(crate::json::member_views(fields@, 0), empty_build())
                == task_of_fields(
                crate::json::member_views(fields@, i as int),
                TaskBuild {
                    cmd: cmd.deep_view(),
                    args: args.deep_view(),
                    env: env.deep_view(),
                    stdin: stdin.deep_view(),
                    files: files.deep_view(),
                    working_dir: working_dir.deep_view(),
                },
            ),
        decreases fields@.len() - i,
    {
        let ghost suffix = crate::json::member_views(fields@, i as int);
        let ghost b_now = TaskBuild {
            cmd: cmd.deep_view(),
            args: args.deep_view(),
            env: env.deep_view(),
            stdin: stdin.deep_view(),
            files: files.deep_view(),
            working_dir: working_dir.deep_view(),
        };
        proof {
            assert(suffix.first() == (fields@[i as int].0@, crate::json::json_view(
                fields@[i as int].1,
            )));
            assert(suffix.drop_first() =~= crate::json::member_views(fields@, i + 1));
        }
        let key = &fields[i].0;
        let value = &fields[i].1;
        let cmd_key = crate::text::chars_of_str("cmd");
        let args_key = crate::text::chars_of_str("args");
        let env_key = crate::text::chars_of_str("env");
        let stdin_key = crate::text::chars_of_str("stdin");
        let files_key = crate::text::chars_of_str("files");
        let wd_key = crate::text::chars_of_str("working_dir");
        if crate::text::chars_eq(key, &cmd_key) {
            let ok = match value {
                Json::Str(s) => {
                    if cmd.is_none() && s.len() > 0 {
                        cmd = Some(crate::text::string_from_chars(s));
                        true
                    } else {
                        false
                    }
                },
                _ => false,
            };
            if !ok {
                proof {
                    assert(task_of_fields(suffix, b_now) is None);
                    assert(task_of_fields(
                        crate::json::member_views(fields@, 0),
                        empty_build(),
                    ) is None);
                    assert(task_of_json(j@) is None);
                }
                return None;
            }
        } else if crate::text::chars_eq(key, &args_key) {
            let mut ok = false;
            match value {
                Json::Null => {
                    ok = true;
                },
                Json::Arr(items) => {
                    if args.is_none() {
                        match strings_of_json_arr(items) {
                            Some(v) => {
                                args = Some(v);
                                ok = true;
                            },
                            None => {},
                        }
                    }
                },
                _ => {},
            }
            if !ok {
                proof {
                    assert(task_of_fields(suffix, b_now) is None);
                    assert(task_of_fields(
                        crate::json::member_views(fields@, 0),
                        empty_build(),
                    ) is None);
                    assert(task_of_json(j@) is None);
                }
                return None;
            }
        } else if crate::text::chars_eq(key, &env_key) {
            let mut ok = false;
            match value {
                Json::Null => {
                    ok = true;
                },
                Json::Obj(fs) => {
                    if env.is_none() {
                        match pairs_of_json_obj(fs) {
                            Some(v) => {
                                if pairs_unique(&v) {
                                    env = Some(v);
                                    ok = true;
                                }
                            },
                            None => {},
                        }
                    }
                },
                _ => {},
            }
            if !ok {
                proof {
                    assert(task_of_fields(suffix, b_now) is None);
                    assert(task_of_fields(
                        crate::json::member_views(fields@, 0),
                        empty_build(),
                    ) is None);
                    assert(task_of_json(j@) is None);
                }
                return None;
            }
        } else if crate::text::chars_eq(key, &stdin_key) {
            let mut ok = false;
            match value {
                Json::Null => {
                    ok = true;
                },
                Json::Str(s) => {
                    if stdin.is_none() {
                        stdin = Some(crate::text::string_from_chars(s));
                        ok = true;
                    }
                },
                _ => {},
            }
            if !ok {
                proof {
                    assert(task_of_fields(suffix, b_now) is None);
                    assert(task_of_fields(
                        crate::json::member_views(fields@, 0),
                        empty_build(),
                    ) is None);
                    assert(task_of_json(j@) is None);
                }
                return None;
            }
        } else if crate::text::chars_eq(key, &files_key) {
            let mut ok = false;
            match value {
                Json::Null => {
                    ok = true;
                },
                Json::Obj(fs) => {
                    if files.is_none() {
                        match pairs_of_json_obj(fs) {
                            Some(v) => {
                                if pairs_unique(&v) {
                                    files = Some(v);
                                    ok = true;
                                }
                            },
                            None => {},
                        }
                    }
                },
                _ => {},
            }
            if !ok {
                proof {
                    assert(task_of_fields(suffix, b_now) is None);
                    assert(task_of_fields(
                        crate::json::member_views(fields@, 0),
                        empty_build(),
                    ) is None);
                    assert(task_of_json(j@) is None);
                }
                return None;
            }
        } else if crate::text::chars_eq(key, &wd_key) {
            let mut ok = false;
            match value {
                Json::Null => {
                    ok = true;
                },
                Json::Str(s) => {
                    if working_dir.is_none() {
                        working_dir = Some(crate::text::string_from_chars(s));
                        ok = true;
                    }
                },
                _ => {},
            }
            if !ok {
                proof {
                    assert(task_of_fields(suffix, b_now) is None);
                    assert(task_of_fields(
                        crate::json::member_views(fields@, 0),
                        empty_build(),
                    ) is None);
                    assert(task_of_json(j@) is None);
                }
                return None;
            }
        } else {
            // an unknown member is skipped, whatever its value
        }
        i = i + 1;
    }
    let ghost bfin = TaskBuild {
        cmd: cmd.deep_view(),
        args: args.deep_view(),
        env: env.deep_view(),
        stdin: stdin.deep_view(),
        files: files.deep_view(),
        working_dir: working_dir.deep_view(),
    };
    proof {
        assert(crate::json::member_views(fields@, i as int) =~= Seq::<(Seq<char>, JsonV)>::empty());
        assert(task_of_json(j@) == task_of_fields(Seq::<(Seq<char>, JsonV)>::empty(), bfin));
    }
    match cmd {
        Some(c) => {
            let t = crate::task::Task { cmd: c, args, env, stdin, files, working_dir };
            proof {
                assert(bfin.cmd is Some);
                assert(t@ == task_of_fields(Seq::<(Seq<char>, JsonV)>::empty(), bfin)->0);
            }
            Some(t)
        },
        None => {
            proof {
                assert(bfin.cmd is None);
                assert(task_of_json(j@) is None);
            }
            None
        },
    }
}

/// Read the tasks of a parallel batch from an array's elements.
fn tasks_of_json_exec(items: &Vec<Json>) -> (r: Option<Vec<crate::task::Task>>)
    ensures
        match tasks_of_json(crate::json::json_views(items@, 0)) {
            Some(ts) => r matches Some(v) && v.deep_view() == ts,
            None => r is None,
        },
{
    let mut out: Vec<crate::task::Task> = Vec::new();
    let mut i: usize = 0;
    proof {
        match tasks_of_json(crate::json::json_views(items@, 0)) {
            Some(ts) => {
                assert(out.deep_view() + ts =~= ts);
            },
            None => {},
        }
    }
    while i < items.len()
        invariant
            0 <= i <= items@.len(),
            tasks_of_json(crate::json::json_views(items@, 0)) == (match tasks_of_json(
                crate::json::json_views(items@, i as int),
            ) {
                Some(rest) => Some(out.deep_view() + rest),
                None => None::<Seq<TaskV>>,
            }),
        decreases items@.len() - i,
    {
        let ghost suffix = crate::json::json_views(items@, i as int);
        proof {
            assert(suffix.first() == crate::json::json_view(items@[i as int]));
            assert(suffix.drop_first() =~= crate::json::json_views(items@, i + 1));
        }
        match task_of_json_exec(&items[i]) {
            Some(t) => {
                let ghost before = out.deep_view();
                let ghost tv = t@;
                out.push(t);
                proof {
                    assert(out.deep_view() =~= before + seq![tv]);
                    match tasks_of_json(crate::json::json_views(items@, i + 1)) {
                        Some(rest) => {
                            assert(before + (seq![tv] + rest) =~= (before + seq![tv]) + rest);
                        },
                        None => {},
                    }
                }
            },
            None => {
                proof {
                    assert(tasks_of_json(suffix) is None);
                    assert(tasks_of_json(crate::json::json_views(items@, 0)) is None);
                }
                return None;
            },
        }
        i = i + 1;
    }
    proof {
        assert(crate::json::json_views(items@, i as int) =~= Seq::<JsonV>::empty());
        assert(out.deep_view() + Seq::<TaskV>::empty() =~= out.deep_view());
    }
    Some(out)
}

/// Read one step from a JSON tree: an object or an array.
pub fn step_of_json_exec(j: &Json) -> (r: Option<crate::task::ExecutionStep>)
    ensures
        match step_of_json(j@) {
            Some(sv) => r matches Some(st) && st@ == sv,
            None => r is None,
        },
{
    match j {
        Json::Obj(_) => match task_of_json_exec(j) {
            Some(t) => Some(crate::task::ExecutionStep::Single(t)),
            None => None,
        },
        Json::Arr(items) => match tasks_of_json_exec(items) {
            Some(ts) => Some(crate::task::ExecutionStep::Parallel(ts)),
            None => None,
        },
        _ => None,
    }
}

/// Read a whole task group from a JSON tree: it must be an array of steps.
pub fn group_of_json_exec(j: &Json) -> (r: Option<crate::task::TaskGroup>)
    ensures
        match group_of_json(j@) {
            Some(g) => r matches Some(tg) && tg.deep_view() == g,
            None => r is None,
        },
{
    let items = match j {
        Json::Arr(it) => it,
        _ => {
            proof {
                assert(!(j@ is Arr));
            }
            return None;
        },
    };
    proof {
        assert(j@ == JsonV::Arr(crate::json::json_views(items@, 0)));
    }
    let mut out: crate::task::TaskGroup = Vec::new();
    let mut i: usize = 0;
    proof {
        match steps_of_json(crate::json::json_views(items@, 0)) {
            Some(g) => {
                assert(out.deep_view() + g =~= g);
            },
            None => {},
        }
    }
    while i < items.len()
        invariant
            0 <= i <= items@.len(),
            j@ == JsonV::Arr(crate::json::json_views(items@, 0)),
            steps_of_json(crate::json::json_views(items@, 0)) == (match steps_of_json(
                crate::json::json_views(items@, i as int),
            ) {
                Some(rest) => Some(out.deep_view() + rest),
                None => None::<Seq<StepV>>,
            }),
        decreases items@.len() - i,
    {
        let ghost suffix = crate::json::json_views(items@, i as int);
        proof {
            assert(suffix.first() == crate::json::json_view(items@[i as int]));
            assert(suffix.drop_first() =~= crate::json::json_views(items@, i + 1));
        }
        match step_of_json_exec(&items[i]) {
            Some(st) => {
                let ghost before = out.deep_view();
                let ghost sv = st@;
                out.push(st);
                proof {
                    assert(out.deep_view() =~= before + seq![sv]);
                    match steps_of_json(crate::json::json_views(items@, i + 1)) {
                        Some(rest) => {
                            assert(before + (seq![sv] + rest) =~= (before + seq![sv]) + rest);
                        },
                        None => {},
                    }
                }
            },
            None => {
                proof {
                    assert(steps_of_json(suffix) is None);
                    assert(steps_of_json(crate::json::json_views(items@, 0)) is None);
                    assert(group_of_json(j@) is None);
                }
                return None;
            },
        }
        i = i + 1;
    }
    proof {
        assert(crate::json::json_views(items@, i as int) =~= Seq::<JsonV>::empty());
        assert(out.deep_view() + Seq::<StepV>::empty() =~= out.deep_view());
    }
    Some(out)
}

/// Decode a task group from wire text. Succeeds exactly when the text is
/// one JSON document denoting a task group; the error says whether the
/// text failed as JSON or as a task group.
pub fn decode_task_group(s: &str) -> (r: Result<crate::task::TaskGroup, crate::error::FaberError>)
    ensures
        r is Ok <==> decode_task_group_spec(s@) is Some,
        match r {
            Ok(g) => decode_task_group_spec(s@) == Some(g.deep_view()),
            Err(e) => e matches crate::error::FaberError::ParseResult { details } && details@
                == (if parse_json_spec(s@) is Some {
                "the request is not a task group"@
            } else {
                "the request is not valid JSON"@
            }),
        },
{
    let chars = crate::text::chars_of_str(s);
    match parse_json(&chars) {
        Some(j) => match group_of_json_exec(&j) {
            Some(g) => Ok(g),
            None => Err(crate::error::FaberError::ParseResult {
                details: "the request is not a task group".to_owned(),
            }),
        },
        None => Err(crate::error::FaberError::ParseResult {
            details: "the request is not valid JSON".to_owned(),
        }),
    }
}

fn u64_of_json_exec(j: &Json) -> (r: Option<u64>)
    ensures
        r == u64_of_json(j@),
{
    match j {
        Json::Int(i) => {
            let v = *i;
            if 0 <= v && v <= u64::MAX as i128 {
                Some(v as u64)
            } else {
                None
            }
        },
        _ => None,
    }
}

/// Read the statistics object of a result.
fn stats_of_json_exec(j: &Json) -> (r: Option<TaskResultStats>)
    ensures
        r == stats_of_json(j@),
{
    let fields = match j {
        Json::Obj(f) => f,
        _ => {
            proof {
                assert(!(j@ is Obj));
            }
            return None;
        },
    };
    proof {
        assert(j@ == JsonV::Obj(crate::json::member_views(fields@, 0)));
    }
    let mut memory_peak_bytes: Option<u64> = None;
    let mut cpu_usage_usec: Option<u64> = None;
    let mut execution_time_ms: Option<u64> = None;
    let mut pids_peak: Option<u64> = None;
    let mut i: usize = 0;
    while i < fields.len()
        invariant
            0 <= i <= fields@.len(),
            j@ == JsonV::Obj(crate::json::member_views(fields@, 0)),
            stats_of_fields(crate::json::member_views(fields@, 0), empty_stats_build())
                == stats_of_fields(
                crate::json::member_views(fields@, i as int),
                StatsBuild { memory_peak_bytes, cpu_usage_usec, execution_time_ms, pids_peak },
            ),
        decreases fields@.len() - i,
    {
        let ghost suffix = crate::json::member_views(fields@, i as int);
        let ghost b_now = StatsBuild {
            memory_peak_bytes,
            cpu_usage_usec,
            execution_time_ms,
            pids_peak,
        };
        proof {
            assert(suffix.first() == (fields@[i as int].0@, crate::json::json_view(
                fields@[i as int].1,
            )));
            assert(suffix.drop_first() =~= crate::json::member_views(fields@, i + 1));
        }
        let key = &fields[i].0;
        let value = &fields[i].1;
        let mem_key = crate::text::chars_of_str("memory_peak_bytes");
        let cpu_key = crate::text::chars_of_str("cpu_usage_usec");
        let time_key = crate::text::chars_of_str("execution_time_ms");
        let pids_key = crate::text::chars_of_str("pids_peak");
        if crate::text::chars_eq(key, &mem_key) {
            let mut ok = false;
            if memory_peak_bytes.is_none() {
                match u64_of_json_exec(value) {
                    Some(v) => {
                        memory_peak_bytes = Some(v);
                        ok = true;
                    },
                    None => {},
                }
            }
            if !ok {
                proof {
                    assert(stats_of_fields(suffix, b_now) is None);
                    assert(stats_of_json(j@) is None);
                }
                return None;
            }
        } else if crate::text::chars_eq(key, &cpu_key) {
            let mut ok = false;
            if cpu_usage_usec.is_none() {
                match u64_of_json_exec(value) {
                    Some(v) => {
                        cpu_usage_usec = Some(v);
                        ok = true;
                    },
                    None => {},
                }
            }
            if !ok {
                proof {
                    assert(stats_of_fields(suffix, b_now) is None);
                    assert(stats_of_json(j@) is None);
                }
                return None;
            }
        } else if crate::text::chars_eq(key, &time_key) {
            let mut ok = false;
            if execution_time_ms.is_none() {
                match u64_of_json_exec(value) {
                    Some(v) => {
                        execution_time_ms = Some(v);
                        ok = true;
                    },
                    None => {},
                }
            }
            if !ok {
                proof {
                    assert(stats_of_fields(suffix, b_now) is None);
                    assert(stats_of_json(j@) is None);
                }
                return None;
            }
        } else if crate::text::chars_eq(key, &pids_key) {
            let mut ok = false;
            if pids_peak.is_none() {
                match u64_of_json_exec(value) {
                    Some(v) => {
                        pids_peak = Some(v);
                        ok = true;
                    },
                    None => {},
                }
            }
            if !ok {
                proof {
                    assert(stats_of_fields(suffix, b_now) is None);
                    assert(stats_of_json(j@) is None);
                }
                return None;
            }
        } else {
            // an unknown member is skipped, whatever its value
        }
        i = i + 1;
    }
    proof {
        assert(crate::json::member_views(fields@, i as int) =~= Seq::<(Seq<char>, JsonV)>::empty());
    }
    match (memory_peak_bytes, cpu_usage_usec, execution_time_ms, pids_peak) {
        (Some(m), Some(c), Some(e), Some(p)) => Some(
            TaskResultStats {
                memory_peak_bytes: m,
                cpu_usage_usec: c,
                execution_time_ms: e,
                pids_peak: p,
            },
        ),
        _ => None,
    }
}

/// Read one task result from a JSON tree.
pub fn task_result_of_json_exec(j: &Json) -> (r: Option<crate::result::TaskResult>)
    ensures
        match task_result_of_json(j@) {
            Some(rv) => r matches Some(tr) && tr@ == rv,
            None => r is None,
        },
{
    let fields = match j {
        Json::Obj(f) => f,
        _ => {
            proof {
                assert(!(j@ is Obj));
            }
            return None;
        },
    };
    proof {
        assert(j@ == JsonV::Obj(crate::json::member_views(fields@, 0)));
    }
    let mut stdout: Option<String> = None;
    let mut stderr: Option<String> = None;
    let mut exit_code: Option<i32> = None;
    let mut error: Option<String> = None;
    let mut stats: Option<TaskResultStats> = None;
    let mut i: usize = 0;
    while i < fields.len()
        invariant
            0 <= i <= fields@.len(),
            j@ == JsonV::Obj(crate::json::member_views(fields@, 0)),
            task_result_of_fields(crate::json::member_views(fields@, 0), empty_result_build())
                == task_result_of_fields(
                crate::json::member_views(fields@, i as int),
                ResultBuild {
                    stdout: stdout.deep_view(),
                    stderr: stderr.deep_view(),
                    exit_code,
                    error: error.deep_view(),
                    stats,
                },
            ),
        decreases fields@.len() - i,
    {
        let ghost suffix = crate::json::member_views(fields@, i as int);
        let ghost b_now = ResultBuild {
            stdout: stdout.deep_view(),
            stderr: stderr.deep_view(),
            exit_code,
            error: error.deep_view(),
            stats,
        };
        proof {
            assert(suffix.first() == (fields@[i as int].0@, crate::json::json_view(
                fields@[i as int].1,
            )));
            assert(suffix.drop_first() =~= crate::json::member_views(fields@, i + 1));
        }
        let key = &fields[i].0;
        let value = &fields[i].1;
        let stdout_key = crate::text::chars_of_str("stdout");
        let stderr_key = crate::text::chars_of_str("stderr");
        let exit_key = crate::text::chars_of_str("exit_code");
        let error_key = crate::text::chars_of_str("error");
        let stats_key = crate::text::chars_of_str("stats");
        if crate::text::chars_eq(key, &stdout_key) {
            let mut ok = false;
            match value {
                Json::Str(s) => {
                    stdout = Some(crate::text::string_from_chars(s));
                    ok = true;
                },
                _ => {},
            }
            if !ok {
                proof {
                    assert(task_result_of_fields(suffix, b_now) is None);
                    assert(task_result_of_json(j@) is None);
                }
                return None;
            }
        } else if crate::text::chars_eq(key, &stderr_key) {
            let mut ok = false;
            match value {
                Json::Str(s) => {
                    stderr = Some(crate::text::string_from_chars(s));
                    ok = true;
                },
                _ => {},
            }
            if !ok {
                proof {
                    assert(task_result_of_fields(suffix, b_now) is None);
                    assert(task_result_of_json(j@) is None);
                }
                return None;
            }
        } else if crate::text::chars_eq(key, &exit_key) {
            let mut ok = false;
            match value {
                Json::Int(v) => {
                    let n = *v;
                    if i32::MIN as i128 <= n && n <= i32::MAX as i128 {
                        exit_code = Some(n as i32);
                        ok = true;
                    }
                },
                _ => {},
            }
            if !ok {
                proof {
                    assert(task_result_of_fields(suffix, b_now) is None);
                    assert(task_result_of_json(j@) is None);
                }
                return None;
            }
        } else if crate::text::chars_eq(key, &error_key) {
            let mut ok = false;
            match value {
                Json::Str(s) => {
                    error = Some(crate::text::string_from_chars(s));
                    ok = true;
                },
                _ => {},
            }
            if !ok {
                proof {
                    assert(task_result_of_fields(suffix, b_now) is None);
                    assert(task_result_of_json(j@) is None);
                }
                return None;
            }
        } else if crate::text::chars_eq(key, &stats_key) {
            let mut ok = false;
            match stats_of_json_exec(value) {
                Some(st) => {
                    stats = Some(st);
                    ok = true;
                },
                None => {},
            }
            if !ok {
                proof {
                    assert(task_result_of_fields(suffix, b_now) is None);
                    assert(task_result_of_json(j@) is None);
                }
                return None;
            }
        } else {
            // an unknown member is skipped, whatever its value
        }
        i = i + 1;
    }
    let ghost bfin = ResultBuild {
        stdout: stdout.deep_view(),
        stderr: stderr.deep_view(),
        exit_code,
        error: error.deep_view(),
        stats,
    };
    proof {
        assert(crate::json::member_views(fields@, i as int) =~= Seq::<(Seq<char>, JsonV)>::empty());
        assert(task_result_of_json(j@) == task_result_of_fields(
            Seq::<(Seq<char>, JsonV)>::empty(),
            bfin,
        ));
    }
    let st = match stats {
        Some(st) => st,
        None => {
            return None;
        },
    };
    match error {
        Some(e) => Some(crate::result::TaskResult::Failed { error: e, stats: st }),
        None => {
            match (stdout, stderr, exit_code) {
                (Some(o), Some(r2), Some(c)) => Some(
                    crate::result::TaskResult::Completed {
                        stdout: o,
                        stderr: r2,
                        exit_code: c,
                        stats: st,
                    },
                ),
                _ => None,
            }
        },
    }
}

fn task_results_of_json_exec(items: &Vec<Json>) -> (r: Option<Vec<crate::result::TaskResult>>)
    ensures
        match task_results_of_json(crate::json::json_views(items@, 0)) {
            Some(rs) => r matches Some(v) && v.deep_view() == rs,
            None => r is None,
        },
{
    let mut out: Vec<crate::result::TaskResult> = Vec::new();
    let mut i: usize = 0;
    proof {
        match task_results_of_json(crate::json::json_views(items@, 0)) {
            Some(rs) => {
                assert(out.deep_view() + rs =~= rs);
            },
            None => {},
        }
    }
    while i < items.len()
        invariant
            0 <= i <= items@.len(),
            task_results_of_json(crate::json::json_views(items@, 0)) == (match task_results_of_json(
                crate::json::json_views(items@, i as int),
            ) {
                Some(rest) => Some(out.deep_view() + rest),
                None => None::<Seq<TaskResultV>>,
            }),
        decreases items@.len() - i,
    {
        let ghost suffix = crate::json::json_views(items@, i as int);
        proof {
            assert(suffix.first() == crate::json::json_view(items@[i as int]));
            assert(suffix.drop_first() =~= crate::json::json_views(items@, i + 1));
        }
        match task_result_of_json_exec(&items[i]) {
            Some(tr) => {
                let ghost before = out.deep_view();
                let ghost rv = tr@;
                out.push(tr);
                proof {
                    assert(out.deep_view() =~= before + seq![rv]);
                    match task_results_of_json(crate::json::json_views(items@, i + 1)) {
                        Some(rest) => {
                            assert(before + (seq![rv] + rest) =~= (before + seq![rv]) + rest);
                        },
                        None => {},
                    }
                }
            },
            None => {
                proof {
                    assert(task_results_of_json(suffix) is None);
                    assert(task_results_of_json(crate::json::json_views(items@, 0)) is None);
                }
                return None;
            },
        }
        i = i + 1;
    }
    proof {
        assert(crate::json::json_views(items@, i as int) =~= Seq::<JsonV>::empty());
        assert(out.deep_view() + Seq::<TaskResultV>::empty() =~= out.deep_view());
    }
    Some(out)
}

/// Read one step result from a JSON tree: an object or an array.
pub fn step_result_of_json_exec(j: &Json) -> (r: Option<crate::result::ExecutionStepResult>)
    ensures
        match step_result_of_json(j@) {
            Some(sv) => r matches Some(sr) && sr@ == sv,
            None => r is None,
        },
{
    match j {
        Json::Obj(_) => match task_result_of_json_exec(j) {
            Some(tr) => Some(crate::result::ExecutionStepResult::Single(tr)),
            None => None,
        },
        Json::Arr(items) => match task_results_of_json_exec(items) {
            Some(rs) => Some(crate::result::ExecutionStepResult::Parallel(rs)),
            None => None,
        },
        _ => None,
    }
}

/// Read a whole group result from a JSON tree.
pub fn group_result_of_json_exec(j: &Json) -> (r: Option<crate::result::TaskGroupResult>)
    ensures
        match group_result_of_json(j@) {
            Some(rs) => r matches Some(gr) && gr.deep_view() == rs,
            None => r is None,
        },
{
    let items = match j {
        Json::Arr(it) => it,
        _ => {
            proof {
                assert(!(j@ is Arr));
            }
            return None;
        },
    };
    proof {
        assert(j@ == JsonV::Arr(crate::json::json_views(items@, 0)));
    }
    let mut out: crate::result::TaskGroupResult = Vec::new();
    let mut i: usize = 0;
    proof {
        match step_results_of_json(crate::json::json_views(items@, 0)) {
            Some(rs) => {
                assert(out.deep_view() + rs =~= rs);
            },
            None => {},
        }
    }
    while i < items.len()
        invariant
            0 <= i <= items@.len(),
            j@ == JsonV::Arr(crate::json::json_views(items@, 0)),
            step_results_of_json(crate::json::json_views(items@, 0)) == (match step_results_of_json(
                crate::json::json_views(items@, i as int),
            ) {
                Some(rest) => Some(out.deep_view() + rest),
                None => None::<Seq<StepResultV>>,
            }),
        decreases items@.len() - i,
    {
        let ghost suffix = crate::json::json_views(items@, i as int);
        proof {
            assert(suffix.first() == crate::json::json_view(items@[i as int]));
            assert(suffix.drop_first() =~= crate::json::json_views(items@, i + 1));
        }
        match step_result_of_json_exec(&items[i]) {
            Some(sr) => {
                let ghost before = out.deep_view();
                let ghost sv = sr@;
                out.push(sr);
                proof {
                    assert(out.deep_view() =~= before + seq![sv]);
                    match step_results_of_json(crate::json::json_views(items@, i + 1)) {
                        Some(rest) => {
                            assert(before + (seq![sv] + rest) =~= (before + seq![sv]) + rest);
                        },
                        None => {},
                    }
                }
            },
            None => {
                proof {
                    assert(step_results_of_json(suffix) is None);
                    assert(step_results_of_json(crate::json::json_views(items@, 0)) is None);
                    assert(group_result_of_json(j@) is None);
                }
                return None;
            },
        }
        i = i + 1;
    }
    proof {
        assert(crate::json::json_views(items@, i as int) =~= Seq::<JsonV>::empty());
        assert(out.deep_view() + Seq::<StepResultV>::empty() =~= out.deep_view());
    }
    Some(out)
}

/// Decode a group result from wire text; the error says whether the text
/// failed as JSON or as a group result.
pub fn decode_group_result(s: &str) -> (r: Result<
    crate::result::TaskGroupResult,
    crate::error::FaberError,
>)
    ensures
        r is Ok <==> decode_group_result_spec(s@) is Some,
        match r {
            Ok(g) => decode_group_result_spec(s@) == Some(g.deep_view()),
            Err(e) => e matches crate::error::FaberError::ParseResult { details } && details@
                == (if parse_json_spec(s@) is Some {
                "the text is not a task group result"@
            } else {
                "the text is not valid JSON"@
            }),
        },
{
    let chars = crate::text::chars_of_str(s);
    match parse_json(&chars) {
        Some(j) => match group_result_of_json_exec(&j) {
            Some(g) => Ok(g),
            None => Err(crate::error::FaberError::ParseResult {
                details: "the text is not a task group result".to_owned(),
            }),
        },
        None => Err(crate::error::FaberError::ParseResult {
            details: "the text is not valid JSON".to_owned(),
        }),
    }
}

/// Decode a runtime result from wire text, as read back from the pipe;
/// the error says whether the text failed as JSON or as a runtime result.
pub fn decode_runtime_result(s: &str) -> (r: Result<
    crate::result::RuntimeResult,
    crate::error::FaberError,
>)
    ensures
        r is Ok <==> decode_runtime_result_spec(s@) is Some,
        match r {
            Ok(rr) => decode_runtime_result_spec(s@) == Some(rr@),
            Err(e) => e matches crate::error::FaberError::ParseResult { details } && details@
                == (if parse_json_spec(s@) is Some {
                "the text is not a runtime result"@
            } else {
                "the text is not valid JSON"@
            }),
        },
{
    let chars = crate::text::chars_of_str(s);
    let j = match parse_json(&chars) {
        Some(j) => j,
        None => {
            return Err(crate::error::FaberError::ParseResult {
                details: "the text is not valid JSON".to_owned(),
            });
        },
    };
    let fields = match &j {
        Json::Obj(f) => f,
        _ => {
            proof {
                assert(!(j@ is Obj));
            }
            return Err(crate::error::FaberError::ParseResult {
                details: "the text is not a runtime result".to_owned(),
            });
        },
    };
    proof {
        assert(j@ == JsonV::Obj(crate::json::member_views(fields@, 0)));
        crate::json::lemma_member_views_index(fields@, 0);
    }
    if fields.len() != 1 {
        return Err(crate::error::FaberError::ParseResult {
            details: "the text is not a runtime result".to_owned(),
        });
    }
    let key = &fields[0].0;
    let value = &fields[0].1;
    proof {
        assert(crate::json::member_views(fields@, 0)[0] == (fields@[0].0@, crate::json::json_view(
            fields@[0].1,
        )));
    }
    let success_key = crate::text::chars_of_str("Success");
    let failed_key = crate::text::chars_of_str("ContainerSetupFailed");
    if crate::text::chars_eq(key, &success_key) {
        match group_result_of_json_exec(value) {
            Some(g) => Ok(crate::result::RuntimeResult::Success(g)),
            None => Err(crate::error::FaberError::ParseResult {
                details: "the text is not a runtime result".to_owned(),
            }),
        }
    } else if crate::text::chars_eq(key, &failed_key) {
        proof {
            reveal_strlit("Success");
            reveal_strlit("ContainerSetupFailed");
            assert("Success"@.len() == 7 && "ContainerSetupFailed"@.len() == 20);
        }
        let inner = match value {
            Json::Obj(f) => f,
            _ => {
                proof {
                    assert(!(crate::json::json_view(fields@[0].1) is Obj));
                }
                return Err(crate::error::FaberError::ParseResult {
                    details: "the text is not a runtime result".to_owned(),
                });
            },
        };
        proof {
            assert(crate::json::json_view(fields@[0].1) == JsonV::Obj(
                crate::json::member_views(inner@, 0),
            ));
            crate::json::lemma_member_views_index(inner@, 0);
        }
        if inner.len() != 1 {
            return Err(crate::error::FaberError::ParseResult {
                details: "the text is not a runtime result".to_owned(),
            });
        }
        proof {
            assert(crate::json::member_views(inner@, 0)[0] == (inner@[0].0@,
            crate::json::json_view(inner@[0].1)));
        }
        let error_key = crate::text::chars_of_str("error");
        if !crate::text::chars_eq(&inner[0].0, &error_key) {
            return Err(crate::error::FaberError::ParseResult {
                details: "the text is not a runtime result".to_owned(),
            });
        }
        match &inner[0].1 {
            Json::Str(e) => Ok(
                crate::result::RuntimeResult::ContainerSetupFailed {
                    error: crate::text::string_from_chars(e),
                },
            ),
            _ => {
                proof {
                    assert(!(crate::json::json_view(inner@[0].1) is Str));
                }
                Err(crate::error::FaberError::ParseResult {
                    details: "the text is not a runtime result".to_owned(),
                })
            },
        }
    } else {
        proof {
            reveal_strlit("Success");
            reveal_strlit("ContainerSetupFailed");
        }
        Err(crate::error::FaberError::ParseResult {
            details: "the text is not a runtime result".to_owned(),
        })
    }
}

// ---------------------------------------------------------------------
// decoding inverts the tree encoding
// ---------------------------------------------------------------------
proof fn lemma_strs_inverse(ss: Seq<Seq<char>>)
    ensures
        strs_of_json(strs_json(ss)) == Some(ss),
    decreases ss.len(),
{
    let m = strs_json(ss);
    if ss.len() == 0 {
        assert(m =~= Seq::<JsonV>::empty());
    } else {
        assert(m.first() == JsonV::Str(ss.first()));
        assert(m.drop_first() =~= strs_json(ss.drop_first()));
        lemma_strs_inverse(ss.drop_first());
        assert(seq![ss.first()] + ss.drop_first() =~= ss);
    }
}

proof fn lemma_pairs_inverse(ps: Seq<(Seq<char>, Seq<char>)>)
    ensures
        pairs_of_members(pairs_members(ps)) == Some(ps),
    decreases ps.len(),
{
    let m = pairs_members(ps);
    if ps.len() == 0 {
        assert(m =~= Seq::<(Seq<char>, JsonV)>::empty());
    } else {
        assert(m.first() == (ps.first().0, JsonV::Str(ps.first().1)));
        assert(m.drop_first() =~= pairs_members(ps.drop_first()));
        lemma_pairs_inverse(ps.drop_first());
        assert(seq![ps.first()] + ps.drop_first() =~= ps);
    }
}

/// Decoding the members produced for a well-formed task rebuilds the task.
#[verifier::rlimit(100)]
proof fn lemma_task_inverse(t: TaskV)
    requires
        t.wf(),
    ensures
        task_of_json(task_json(t)) == Some(t),
{
    reveal_strlit("cmd");
    reveal_strlit("args");
    reveal_strlit("env");
    reveal_strlit("stdin");
    reveal_strlit("files");
    reveal_strlit("working_dir");
    assert("cmd"@.len() == 3 && "args"@.len() == 4 && "env"@.len() == 3 && "stdin"@.len() == 5
        && "files"@.len() == 5 && "working_dir"@.len() == 11);
    assert("cmd"@[0] == 'c' && "env"@[0] == 'e' && "stdin"@[0] == 's' && "files"@[0] == 'f');
    let seg_cmd = seq![("cmd"@, JsonV::Str(t.cmd))];
    let seg_a = opt_seg(
        "args"@,
        match t.args {
            Some(a) => Some(JsonV::Arr(strs_json(a))),
            None => None,
        },
    );
    let seg_e = opt_seg(
        "env"@,
        match t.env {
            Some(e) => Some(JsonV::Obj(pairs_members(e))),
            None => None,
        },
    );
    let seg_s = opt_seg(
        "stdin"@,
        match t.stdin {
            Some(x) => Some(JsonV::Str(x)),
            None => None,
        },
    );
    let seg_f = opt_seg(
        "files"@,
        match t.files {
            Some(f) => Some(JsonV::Obj(pairs_members(f))),
            None => None,
        },
    );
    let seg_w = opt_seg(
        "working_dir"@,
        match t.working_dir {
            Some(x) => Some(JsonV::Str(x)),
            None => None,
        },
    );
    let f0 = seg_cmd + seg_a + seg_e + seg_s + seg_f + seg_w;
    assert(task_json(t) == JsonV::Obj(f0));
    let b0 = empty_build();
    // cmd
    assert(f0.first() == ("cmd"@, JsonV::Str(t.cmd)));
    let b1 = TaskBuild { cmd: Some(t.cmd), ..b0 };
    assert(t.cmd.len() > 0);
    assert(task_of_fields(f0, b0) == task_of_fields(f0.drop_first(), b1));
    let f1 = seg_a + seg_e + seg_s + seg_f + seg_w;
    assert(f0.drop_first() =~= f1);
    // args
    let b2 = TaskBuild { args: t.args, ..b1 };
    let f2 = seg_e + seg_s + seg_f + seg_w;
    match t.args {
        Some(a) => {
            assert(f1.first() == ("args"@, JsonV::Arr(strs_json(a))));
            assert("args"@ != "cmd"@);
            lemma_strs_inverse(a);
            assert(task_of_fields(f1, b1) == task_of_fields(f1.drop_first(), b2));
            assert(f1.drop_first() =~= f2);
        },
        None => {
            assert(seg_a =~= Seq::<(Seq<char>, JsonV)>::empty());
            assert(f1 =~= f2);
            assert(b2 == b1);
        },
    }
    // env
    let b3 = TaskBuild { env: t.env, ..b2 };
    let f3 = seg_s + seg_f + seg_w;
    match t.env {
        Some(e) => {
            assert(f2.first() == ("env"@, JsonV::Obj(pairs_members(e))));
            assert("env"@ != "cmd"@ && "env"@ != "args"@);
            lemma_pairs_inverse(e);
            assert(unique_keys(e));
            assert(task_of_fields(f2, b2) == task_of_fields(f2.drop_first(), b3));
            assert(f2.drop_first() =~= f3);
        },
        None => {
            assert(seg_e =~= Seq::<(Seq<char>, JsonV)>::empty());
            assert(f2 =~= f3);
            assert(b3 == b2);
        },
    }
    // stdin
    let b4 = TaskBuild { stdin: t.stdin, ..b3 };
    let f4 = seg_f + seg_w;
    match t.stdin {
        Some(x) => {
            assert(f3.first() == ("stdin"@, JsonV::Str(x)));
            assert("stdin"@ != "cmd"@ && "stdin"@ != "args"@ && "stdin"@ != "env"@);
            assert(task_of_fields(f3, b3) == task_of_fields(f3.drop_first(), b4));
            assert(f3.drop_first() =~= f4);
        },
        None => {
            assert(seg_s =~= Seq::<(Seq<char>, JsonV)>::empty());
            assert(f3 =~= f4);
            assert(b4 == b3);
        },
    }
    // files
    let b5 = TaskBuild { files: t.files, ..b4 };
    let f5 = seg_w;
    match t.files {
        Some(fl) => {
            assert(f4.first() == ("files"@, JsonV::Obj(pairs_members(fl))));
            assert("files"@ != "cmd"@ && "files"@ != "args"@ && "files"@ != "env"@ && "files"@
                != "stdin"@);
            lemma_pairs_inverse(fl);
            assert(unique_keys(fl));
            assert(task_of_fields(f4, b4) == task_of_fields(f4.drop_first(), b5));
            assert(f4.drop_first() =~= f5);
        },
        None => {
            assert(seg_f =~= Seq::<(Seq<char>, JsonV)>::empty());
            assert(f4 =~= f5);
            assert(b5 == b4);
        },
    }
    // working_dir
    let b6 = TaskBuild { working_dir: t.working_dir, ..b5 };
    match t.working_dir {
        Some(x) => {
            assert(f5.first() == ("working_dir"@, JsonV::Str(x)));
            assert("working_dir"@ != "cmd"@ && "working_dir"@ != "args"@ && "working_dir"@
                != "env"@ && "working_dir"@ != "stdin"@ && "working_dir"@ != "files"@);
            assert(task_of_fields(f5, b5) == task_of_fields(f5.drop_first(), b6));
            assert(f5.drop_first() =~= Seq::<(Seq<char>, JsonV)>::empty());
        },
        None => {
            assert(seg_w =~= Seq::<(Seq<char>, JsonV)>::empty());
            assert(f5 =~= Seq::<(Seq<char>, JsonV)>::empty());
            assert(b6 == b5);
        },
    }
    assert(task_of_fields(Seq::<(Seq<char>, JsonV)>::empty(), b6) == Some(t));
}

proof fn lemma_tasks_inverse(ts: Seq<TaskV>)
    requires
        forall|i: int| 0 <= i < ts.len() ==> (#[trigger] ts[i]).wf(),
    ensures
        tasks_of_json(tasks_json(ts)) == Some(ts),
    decreases ts.len(),
{
    let m = tasks_json(ts);
    if ts.len() == 0 {
        assert(m =~= Seq::<JsonV>::empty());
    } else {
        assert(m.first() == task_json(ts.first()));
        assert(ts[0].wf());
        lemma_task_inverse(ts.first());
        assert(task_json(ts.first()) is Obj) by {
            reveal_strlit("cmd");
        }
        assert(m.drop_first() =~= tasks_json(ts.drop_first()));
        assert(forall|i: int|
            0 <= i < ts.drop_first().len() ==> (#[trigger] ts.drop_first()[i]).wf());
        lemma_tasks_inverse(ts.drop_first());
        assert(seq![ts.first()] + ts.drop_first() =~= ts);
    }
}

/// The structural encoding of a step: a single task is an object, a
/// parallel batch is an array.
pub proof fn lemma_structural_encoding(st: StepV)
    ensures
        st is Single <==> step_json(st) is Obj,
        st is Parallel <==> step_json(st) is Arr,
{
}

proof fn lemma_step_inverse(st: StepV)
    requires
        st.wf(),
    ensures
        step_of_json(step_json(st)) == Some(st),
{
    match st {
        StepV::Single(t) => {
            lemma_task_inverse(t);
        },
        StepV::Parallel(ts) => {
            lemma_tasks_inverse(ts);
        },
    }
}

proof fn lemma_steps_inverse(g: Seq<StepV>)
    requires
        crate::task::group_wf(g),
    ensures
        steps_of_json(g.map_values(|st: StepV| step_json(st))) == Some(g),
    decreases g.len(),
{
    let m = g.map_values(|st: StepV| step_json(st));
    if g.len() == 0 {
        assert(m =~= Seq::<JsonV>::empty());
    } else {
        assert(m.first() == step_json(g.first()));
        assert(g[0].wf());
        lemma_step_inverse(g.first());
        assert(step_of_json(step_json(g.first())) == Some(g.first()));
        assert(m.drop_first() =~= g.drop_first().map_values(|st: StepV| step_json(st)));
        assert(forall|i: int|
            0 <= i < g.drop_first().len() ==> (#[trigger] g.drop_first()[i]).wf());
        lemma_steps_inverse(g.drop_first());
        assert(seq![g.first()] + g.drop_first() =~= g);
    }
}

proof fn lemma_stats_inverse(st: TaskResultStats)
    ensures
        stats_of_json(stats_json(st)) == Some(st),
{
    reveal_strlit("memory_peak_bytes");
    reveal_strlit("cpu_usage_usec");
    reveal_strlit("execution_time_ms");
    reveal_strlit("pids_peak");
    assert("memory_peak_bytes"@.len() == 17 && "cpu_usage_usec"@.len() == 14
        && "execution_time_ms"@.len() == 17 && "pids_peak"@.len() == 9);
    assert("memory_peak_bytes"@[0] == 'm' && "execution_time_ms"@[0] == 'e');
    let f0 = seq![
        ("memory_peak_bytes"@, JsonV::Int(st.memory_peak_bytes as int)),
        ("cpu_usage_usec"@, JsonV::Int(st.cpu_usage_usec as int)),
        ("execution_time_ms"@, JsonV::Int(st.execution_time_ms as int)),
        ("pids_peak"@, JsonV::Int(st.pids_peak as int)),
    ];
    let b0 = empty_stats_build();
    let b1 = StatsBuild { memory_peak_bytes: Some(st.memory_peak_bytes), ..b0 };
    let b2 = StatsBuild { cpu_usage_usec: Some(st.cpu_usage_usec), ..b1 };
    let b3 = StatsBuild { execution_time_ms: Some(st.execution_time_ms), ..b2 };
    let b4 = StatsBuild { pids_peak: Some(st.pids_peak), ..b3 };
    assert(f0.first() == ("memory_peak_bytes"@, JsonV::Int(st.memory_peak_bytes as int)));
    assert(b0.memory_peak_bytes is None);
    assert(u64_of_json(f0.first().1) == Some(st.memory_peak_bytes));
    assert(stats_of_fields(f0, b0) == stats_of_fields(f0.drop_first(), b1));
    assert(f0.drop_first() =~= f0.subrange(1, 4));
    assert(stats_of_fields(f0.subrange(1, 4), b1) == stats_of_fields(
        f0.subrange(1, 4).drop_first(),
        b2,
    ));
    assert(f0.subrange(1, 4).drop_first() =~= f0.subrange(2, 4));
    assert(stats_of_fields(f0.subrange(2, 4), b2) == stats_of_fields(
        f0.subrange(2, 4).drop_first(),
        b3,
    ));
    assert(f0.subrange(2, 4).drop_first() =~= f0.subrange(3, 4));
    assert(stats_of_fields(f0.subrange(3, 4), b3) == stats_of_fields(
        f0.subrange(3, 4).drop_first(),
        b4,
    ));
    assert(f0.subrange(3, 4).drop_first() =~= Seq::<(Seq<char>, JsonV)>::empty());
    assert(stats_of_fields(Seq::<(Seq<char>, JsonV)>::empty(), b4) == Some(st));
}

proof fn lemma_task_result_inverse(r: TaskResultV)
    ensures
        task_result_of_json(task_result_json(r)) == Some(r),
{
    reveal_strlit("stdout");
    reveal_strlit("stderr");
    reveal_strlit("exit_code");
    reveal_strlit("error");
    reveal_strlit("stats");
    assert("stdout"@.len() == 6 && "stderr"@.len() == 6 && "exit_code"@.len() == 9 && "error"@.len()
        == 5 && "stats"@.len() == 5);
    assert("stdout"@[3] == 'o' && "stderr"@[3] == 'e');
    assert("error"@[0] == 'e' && "stats"@[0] == 's');
    match r {
        TaskResultV::Completed { stdout, stderr, exit_code, stats } => {
            lemma_stats_inverse(stats);
            let f0 = seq![
                ("stdout"@, JsonV::Str(stdout)),
                ("stderr"@, JsonV::Str(stderr)),
                ("exit_code"@, JsonV::Int(exit_code as int)),
                ("stats"@, stats_json(stats)),
            ];
            let b0 = empty_result_build();
            let b1 = ResultBuild { stdout: Some(stdout), ..b0 };
            let b2 = ResultBuild { stderr: Some(stderr), ..b1 };
            let b3 = ResultBuild { exit_code: Some(exit_code), ..b2 };
            let b4 = ResultBuild { stats: Some(stats), ..b3 };
            assert(task_result_of_fields(f0, b0) == task_result_of_fields(f0.drop_first(), b1));
            assert(f0.drop_first() =~= f0.subrange(1, 4));
            assert(task_result_of_fields(f0.subrange(1, 4), b1) == task_result_of_fields(
                f0.subrange(1, 4).drop_first(),
                b2,
            ));
            assert(f0.subrange(1, 4).drop_first() =~= f0.subrange(2, 4));
            assert(task_result_of_fields(f0.subrange(2, 4), b2) == task_result_of_fields(
                f0.subrange(2, 4).drop_first(),
                b3,
            ));
            assert(f0.subrange(2, 4).drop_first() =~= f0.subrange(3, 4));
            assert(task_result_of_fields(f0.subrange(3, 4), b3) == task_result_of_fields(
                f0.subrange(3, 4).drop_first(),
                b4,
            ));
            assert(f0.subrange(3, 4).drop_first() =~= Seq::<(Seq<char>, JsonV)>::empty());
            assert(task_result_of_fields(Seq::<(Seq<char>, JsonV)>::empty(), b4) == Some(r));
        },
        TaskResultV::Failed { error, stats } => {
            lemma_stats_inverse(stats);
            let f0 = seq![("error"@, JsonV::Str(error)), ("stats"@, stats_json(stats))];
            let b0 = empty_result_build();
            let b1 = ResultBuild { error: Some(error), ..b0 };
            let b2 = ResultBuild { stats: Some(stats), ..b1 };
            assert(task_result_of_fields(f0, b0) == task_result_of_fields(f0.drop_first(), b1));
            assert(f0.drop_first() =~= f0.subrange(1, 2));
            assert(task_result_of_fields(f0.subrange(1, 2), b1) == task_result_of_fields(
                f0.subrange(1, 2).drop_first(),
                b2,
            ));
            assert(f0.subrange(1, 2).drop_first() =~= Seq::<(Seq<char>, JsonV)>::empty());
            assert(task_result_of_fields(Seq::<(Seq<char>, JsonV)>::empty(), b2) == Some(r));
        },
    }
}

proof fn lemma_task_results_inverse(rs: Seq<TaskResultV>)
    ensures
        task_results_of_json(task_results_json(rs)) == Some(rs),
    decreases rs.len(),
{
    let m = task_results_json(rs);
    if rs.len() == 0 {
        assert(m =~= Seq::<JsonV>::empty());
    } else {
        assert(m.first() == task_result_json(rs.first()));
        lemma_task_result_inverse(rs.first());
        assert(m.drop_first() =~= task_results_json(rs.drop_first()));
        lemma_task_results_inverse(rs.drop_first());
        assert(seq![rs.first()] + rs.drop_first() =~= rs);
    }
}

proof fn lemma_step_result_inverse(sr: StepResultV)
    ensures
        step_result_of_json(step_result_json(sr)) == Some(sr),
{
    match sr {
        StepResultV::Single(r) => {
            lemma_task_result_inverse(r);
        },
        StepResultV::Parallel(rs) => {
            lemma_task_results_inverse(rs);
        },
    }
}

proof fn lemma_step_results_inverse(rs: Seq<StepResultV>)
    ensures
        step_results_of_json(rs.map_values(|sr: StepResultV| step_result_json(sr))) == Some(rs),
    decreases rs.len(),
{
    let m = rs.map_values(|sr: StepResultV| step_result_json(sr));
    if rs.len() == 0 {
        assert(m =~= Seq::<JsonV>::empty());
    } else {
        assert(m.first() == step_result_json(rs.first()));
        lemma_step_result_inverse(rs.first());
        assert(m.drop_first() =~= rs.drop_first().map_values(
            |sr: StepResultV| step_result_json(sr),
        ));
        lemma_step_results_inverse(rs.drop_first());
        assert(seq![rs.first()] + rs.drop_first() =~= rs);
    }
}

proof fn lemma_runtime_result_inverse(r: crate::result::RuntimeResultV)
    ensures
        runtime_result_of_json(runtime_result_json(r)) == Some(r),
{
    reveal_strlit("Success");
    reveal_strlit("ContainerSetupFailed");
    reveal_strlit("error");
    assert("Success"@.len() == 7 && "ContainerSetupFailed"@.len() == 20);
    match r {
        crate::result::RuntimeResultV::Success(rs) => {
            lemma_step_results_inverse(rs);
        },
        crate::result::RuntimeResultV::ContainerSetupFailed { error } => {
            assert("ContainerSetupFailed"@ != "Success"@);
        },
    }
}

// ---------------------------------------------------------------------
// encodings are well-formed trees
// ---------------------------------------------------------------------
proof fn lemma_wf_jsons_all(items: Seq<JsonV>, i: int)
    requires
        0 <= i <= items.len(),
        forall|k: int| i <= k < items.len() ==> wf_json(#[trigger] items[k]),
    ensures
        wf_jsons(items, i),
    decreases items.len() - i,
{
    if i < items.len() {
        lemma_wf_jsons_all(items, i + 1);
    }
}

proof fn lemma_wf_members_all(fields: Seq<(Seq<char>, JsonV)>, i: int)
    requires
        0 <= i <= fields.len(),
        forall|k: int| i <= k < fields.len() ==> wf_json((#[trigger] fields[k]).1),
    ensures
        wf_members(fields, i),
    decreases fields.len() - i,
{
    if i < fields.len() {
        lemma_wf_members_all(fields, i + 1);
    }
}

proof fn lemma_wf_task_json(t: TaskV)
    ensures
        wf_json(task_json(t)),
{
    let f = task_json(t)->Obj_0;
    assert forall|k: int| 0 <= k < f.len() implies wf_json((#[trigger] f[k]).1) by {
        let v = f[k].1;
        match v {
            JsonV::Str(_) => {},
            JsonV::Arr(items) => {
                assert forall|j: int| 0 <= j < items.len() implies wf_json(
                    #[trigger] items[j],
                ) by {
                    assert(items[j] is Str);
                }
                lemma_wf_jsons_all(items, 0);
            },
            JsonV::Obj(ms) => {
                assert forall|j: int| 0 <= j < ms.len() implies wf_json(
                    (#[trigger] ms[j]).1,
                ) by {
                    assert(ms[j].1 is Str);
                }
                lemma_wf_members_all(ms, 0);
            },
            _ => {
                assert(false);
            },
        }
    }
    lemma_wf_members_all(f, 0);
}

proof fn lemma_wf_group_json(g: Seq<StepV>)
    ensures
        wf_json(group_json(g)),
{
    let items = group_json(g)->Arr_0;
    assert forall|k: int| 0 <= k < items.len() implies wf_json(#[trigger] items[k]) by {
        match g[k] {
            StepV::Single(t) => {
                lemma_wf_task_json(t);
            },
            StepV::Parallel(ts) => {
                let inner = tasks_json(ts);
                assert forall|j: int| 0 <= j < inner.len() implies wf_json(
                    #[trigger] inner[j],
                ) by {
                    lemma_wf_task_json(ts[j]);
                }
                lemma_wf_jsons_all(inner, 0);
            },
        }
    }
    lemma_wf_jsons_all(items, 0);
}

proof fn lemma_wf_stats_json(st: TaskResultStats)
    ensures
        wf_json(stats_json(st)),
{
    let f = stats_json(st)->Obj_0;
    assert forall|k: int| 0 <= k < f.len() implies wf_json((#[trigger] f[k]).1) by {
        assert(f[k].1 is Int);
    }
    lemma_wf_members_all(f, 0);
}

proof fn lemma_wf_task_result_json(r: TaskResultV)
    ensures
        wf_json(task_result_json(r)),
{
    lemma_wf_stats_json(
        match r {
            TaskResultV::Completed { stats, .. } => stats,
            TaskResultV::Failed { stats, .. } => stats,
        },
    );
    let f = task_result_json(r)->Obj_0;
    assert forall|k: int| 0 <= k < f.len() implies wf_json((#[trigger] f[k]).1) by {}
    lemma_wf_members_all(f, 0);
}

proof fn lemma_wf_group_result_json(rs: Seq<StepResultV>)
    ensures
        wf_json(group_result_json(rs)),
{
    let items = group_result_json(rs)->Arr_0;
    assert forall|k: int| 0 <= k < items.len() implies wf_json(#[trigger] items[k]) by {
        match rs[k] {
            StepResultV::Single(r) => {
                lemma_wf_task_result_json(r);
            },
            StepResultV::Parallel(inner_rs) => {
                let inner = task_results_json(inner_rs);
                assert forall|j: int| 0 <= j < inner.len() implies wf_json(
                    #[trigger] inner[j],
                ) by {
                    lemma_wf_task_result_json(inner_rs[j]);
                }
                lemma_wf_jsons_all(inner, 0);
            },
        }
    }
    lemma_wf_jsons_all(items, 0);
}

proof fn lemma_wf_runtime_result_json(r: crate::result::RuntimeResultV)
    ensures
        wf_json(runtime_result_json(r)),
{
    let f = runtime_result_json(r)->Obj_0;
    assert forall|k: int| 0 <= k < f.len() implies wf_json((#[trigger] f[k]).1) by {
        match r {
            crate::result::RuntimeResultV::Success(rs) => {
                lemma_wf_group_result_json(rs);
            },
            crate::result::RuntimeResultV::ContainerSetupFailed { error } => {
                let inner = seq![("error"@, JsonV::Str(error))];
                assert forall|j: int| 0 <= j < inner.len() implies wf_json(
                    (#[trigger] inner[j]).1,
                ) by {}
                lemma_wf_members_all(inner, 0);
            },
        }
    }
    lemma_wf_members_all(f, 0);
}

// ---------------------------------------------------------------------
// the round-trip laws
// ---------------------------------------------------------------------
/// Decoding inverts encoding for every well-formed task group: the encoded
/// text of a group reads back as exactly that group, structural variant
/// encoding (object for a single task, array for a parallel batch)
/// preserved.
pub proof fn lemma_task_group_round_trip(g: Seq<StepV>)
    requires
        crate::task::group_wf(g),
    ensures
        decode_task_group_spec(encode_task_group_spec(g)) == Some(g),
{
    lemma_wf_group_json(g);
    lemma_parse_print_document(group_json(g));
    lemma_steps_inverse(g);
}

/// Decoding inverts encoding for every group result: the encoded text of
/// the results reads back as exactly those results, structural variant
/// encoding preserved.
pub proof fn lemma_group_result_round_trip(rs: Seq<StepResultV>)
    ensures
        decode_group_result_spec(encode_group_result_spec(rs)) == Some(rs),
{
    lemma_wf_group_result_json(rs);
    lemma_parse_print_document(group_result_json(rs));
    lemma_step_results_inverse(rs);
}

/// Decoding inverts encoding for every runtime result, so a result
/// written to the pipe as one JSON value is read back unchanged.
pub proof fn lemma_runtime_result_round_trip(r: crate::result::RuntimeResultV)
    ensures
        decode_runtime_result_spec(encode_runtime_result_spec(r)) == Some(r),
{
    lemma_wf_runtime_result_json(r);
    lemma_parse_print_document(runtime_result_json(r));
    lemma_runtime_result_inverse(r);
}

} // verus!
