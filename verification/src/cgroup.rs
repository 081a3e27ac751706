//! Cgroup v2 resource governance.
//!
//! The service owns the parent subtree `/sys/fs/cgroup/faber` and one
//! `task-<id>` child per running command. This module computes, with exact
//! contracts, everything those operations decide: the control-file writes
//! that configure a task cgroup (including memory-limit parsing), the
//! parent-hierarchy setup steps, and the parsing of the statistics files
//! read back after a task has exited. Performing the filesystem writes and
//! reads is left to the unverified process around the library.

use vstd::prelude::*;
use crate::error::FaberError;
use crate::ident::{generate_random_string, is_id_string};
use crate::result::TaskResultStats;
use crate::text::{
    all_dec_digits, chars_eq, chars_of_str, dec_digits, dec_value, parse_dec_u128_range,
    parse_dec_u64, split_chars, split_on, str_concat, tokens_of, trim_chars, trim_spec,
    u64_to_string,
};

verus! {

/// CPU time counters of `cpu.stat`, in microseconds.
#[derive(Debug, Clone, Copy, PartialEq, Eq)]
pub struct CpuStats {
    pub usage_usec: u64,
    pub user_usec: u64,
    pub system_usec: u64,
}

impl Default for CpuStats {
    /// The default counters are all zero.
    fn default() -> (r: Self)
        ensures
            r == (CpuStats { usage_usec: 0, user_usec: 0, system_usec: 0 }),
    {
        CpuStats { usage_usec: 0, user_usec: 0, system_usec: 0 }
    }
}

/// Memory counters of the task cgroup, in bytes.
#[derive(Debug, Clone, Copy, PartialEq, Eq)]
pub struct MemoryStats {
    pub current: u64,
    pub peak: u64,
    pub max: u64,
}

impl Default for MemoryStats {
    /// The default counters are all zero.
    fn default() -> (r: Self)
        ensures
            r == (MemoryStats { current: 0, peak: 0, max: 0 }),
    {
        MemoryStats { current: 0, peak: 0, max: 0 }
    }
}

/// Process-count counters of the task cgroup.
#[derive(Debug, Clone, Copy, PartialEq, Eq)]
pub struct PidsStats {
    pub current: u64,
    pub max: u64,
}

impl Default for PidsStats {
    /// The default counters are all zero.
    fn default() -> (r: Self)
        ensures
            r == (PidsStats { current: 0, max: 0 }),
    {
        PidsStats { current: 0, max: 0 }
    }
}

/// All statistics read from a task cgroup.
#[derive(Debug, Clone, Copy, PartialEq, Eq)]
pub struct TaskStats {
    pub cpu: CpuStats,
    pub memory: MemoryStats,
    pub pids: PidsStats,
}

impl Default for TaskStats {
    /// The default statistics are all zero.
    fn default() -> (r: Self)
        ensures
            r == (TaskStats {
                cpu: CpuStats { usage_usec: 0, user_usec: 0, system_usec: 0 },
                memory: MemoryStats { current: 0, peak: 0, max: 0 },
                pids: PidsStats { current: 0, max: 0 },
            }),
    {
        TaskStats {
            cpu: CpuStats { usage_usec: 0, user_usec: 0, system_usec: 0 },
            memory: MemoryStats { current: 0, peak: 0, max: 0 },
            pids: PidsStats { current: 0, max: 0 },
        }
    }
}

/// Per-task resource limits, as written into the cgroup control files.
#[derive(Debug)]
pub struct CgroupConfig {
    /// Contents of `cpu.max`: `"<quota> <period>"` in microseconds.
    pub cpu_max: String,
    /// Memory limit with optional unit suffix, or `"max"`.
    pub memory_max: String,
    /// Contents of `pids.max`.
    pub pids_max: u32,
}

impl Default for CgroupConfig {
    /// The default limits: half a CPU, 128 MiB, 64 processes.
    fn default() -> (r: Self)
        ensures
            r.cpu_max@ == "50000 100000"@,
            r.memory_max@ == "128M"@,
            r.pids_max == 64,
    {
        CgroupConfig {
            cpu_max: "50000 100000".to_owned(),
            memory_max: "128M".to_owned(),
            pids_max: 64,
        }
    }
}

impl Clone for CgroupConfig {
    /// Cloning preserves the configured limits.
    fn clone(&self) -> (r: Self)
        ensures
            r.cpu_max@ == self.cpu_max@,
            r.memory_max@ == self.memory_max@,
            r.pids_max == self.pids_max,
    {
        CgroupConfig {
            cpu_max: self.cpu_max.clone(),
            memory_max: self.memory_max.clone(),
            pids_max: self.pids_max,
        }
    }
}

/// Builder for [`CgroupConfig`], starting from the defaults.
#[derive(Debug)]
pub struct CgroupConfigBuilder {
    pub config: CgroupConfig,
}

impl CgroupConfigBuilder {
    pub fn new() -> (r: Self)
        ensures
            r.config.cpu_max@ == "50000 100000"@,
            r.config.memory_max@ == "128M"@,
            r.config.pids_max == 64,
    {
        CgroupConfigBuilder { config: CgroupConfig::default() }
    }

    pub fn with_cpu(self, cpu_max: String) -> (r: Self)
        ensures
            r.config.cpu_max@ == cpu_max@,
            r.config.memory_max@ == self.config.memory_max@,
            r.config.pids_max == self.config.pids_max,
    {
        let mut b = self;
        b.config.cpu_max = cpu_max;
        b
    }

    pub fn with_memory(self, memory_max: String) -> (r: Self)
        ensures
            r.config.cpu_max@ == self.config.cpu_max@,
            r.config.memory_max@ == memory_max@,
            r.config.pids_max == self.config.pids_max,
    {
        let mut b = self;
        b.config.memory_max = memory_max;
        b
    }

    pub fn with_pids(self, pids_max: u32) -> (r: Self)
        ensures
            r.config.cpu_max@ == self.config.cpu_max@,
            r.config.memory_max@ == self.config.memory_max@,
            r.config.pids_max == pids_max,
    {
        let mut b = self;
        b.config.pids_max = pids_max;
        b
    }

    pub fn build(self) -> (r: CgroupConfig)
        ensures
            r.cpu_max@ == self.config.cpu_max@,
            r.memory_max@ == self.config.memory_max@,
            r.pids_max == self.config.pids_max,
    {
        self.config
    }
}

/// Bytes per unit suffix; zero marks a character that is no unit.
pub open spec fn unit_multiplier(c: char) -> nat {
    if c == 'K' || c == 'k' {
        1024
    } else if c == 'M' || c == 'm' {
        1048576
    } else if c == 'G' || c == 'g' {
        1073741824
    } else if c == 'T' || c == 't' {
        1099511627776
    } else {
        0
    }
}

/// The byte value denoted by a memory-limit string, after trimming:
/// `"max"` denotes the largest limit, a bare integer denotes bytes, and an
/// integer with suffix `K`, `M`, `G` or `T` (either case) denotes binary
/// multiples. Anything else, and any value beyond the 64-bit range, denotes
/// nothing.
pub open spec fn mem_limit_spec(s0: Seq<char>) -> Option<u64> {
    let s = trim_spec(s0);
    if s == "max"@ {
        Some(u64::MAX)
    } else if s.len() > 0 && all_dec_digits(s) {
        if dec_value(s) <= u64::MAX {
            Some(dec_value(s) as u64)
        } else {
            None
        }
    } else if s.len() >= 2 && all_dec_digits(s.drop_last()) && unit_multiplier(s.last()) > 0 {
        if dec_value(s.drop_last()) * unit_multiplier(s.last()) <= u64::MAX {
            Some((dec_value(s.drop_last()) * unit_multiplier(s.last())) as u64)
        } else {
            None
        }
    } else {
        None
    }
}

fn unit_multiplier_exec(c: char) -> (m: u64)
    ensures
        m as nat == unit_multiplier(c),
{
    if c == 'K' || c == 'k' {
        1024
    } else if c == 'M' || c == 'm' {
        1048576
    } else if c == 'G' || c == 'g' {
        1073741824
    } else if c == 'T' || c == 't' {
        1099511627776
    } else {
        0
    }
}

/// The message of a rejected memory-limit string: a string of digits with
/// a suffix that is neither a digit nor a unit, whose number fits, names
/// the unknown unit; every other rejection names the trimmed input.
pub open spec fn mem_limit_err_msg(s0: Seq<char>) -> Seq<char> {
    let s = trim_spec(s0);
    if s.len() >= 2 && !crate::text::is_dec_digit(s.last()) && unit_multiplier(s.last()) == 0
        && all_dec_digits(s.drop_last()) && dec_value(s.drop_last()) <= u64::MAX {
        "Unknown memory unit: "@ + seq![s.last()]
    } else {
        "Invalid memory format: "@ + s
    }
}

/// The rejection that names the trimmed input.
fn mem_invalid_err(t: &Vec<char>) -> (e: FaberError)
    ensures
        e matches FaberError::Generic { message } && message@ == "Invalid memory format: "@ + t@,
{
    let ts = crate::text::string_from_chars(t);
    FaberError::Generic { message: str_concat("Invalid memory format: ", ts.as_str()) }
}

/// The rejection that names the unknown unit suffix.
fn mem_unknown_unit_err(unit: char) -> (e: FaberError)
    ensures
        e matches FaberError::Generic { message } && message@ == "Unknown memory unit: "@ + seq![
            unit,
        ],
{
    let mut v: Vec<char> = Vec::new();
    v.push(unit);
    proof {
        assert(v@ =~= seq![unit]);
    }
    let us = crate::text::string_from_chars(&v);
    FaberError::Generic { message: str_concat("Unknown memory unit: ", us.as_str()) }
}

/// Parse a memory-limit string into bytes.
///
/// Succeeds exactly when the trimmed input denotes a representable byte
/// value under [`mem_limit_spec`]; every other input is rejected with a
/// `Generic` error carrying exactly [`mem_limit_err_msg`].
pub fn parse_memory_string(s: &str) -> (r: Result<u64, FaberError>)
    ensures
        match r {
            Ok(v) => mem_limit_spec(s@) == Some(v),
            Err(e) => {
                &&& mem_limit_spec(s@) is None
                &&& e matches FaberError::Generic { message } && message@ == mem_limit_err_msg(s@)
            },
        },
{
    let chars = chars_of_str(s);
    let t = trim_chars(&chars);
    let len = t.len();
    proof {
        reveal_strlit("max");
    }
    if len == 3 && t[0] == 'm' && t[1] == 'a' && t[2] == 'x' {
        proof {
            assert(t@ =~= "max"@);
        }
        return Ok(u64::MAX);
    }
    proof {
        assert(t@ != "max"@) by {
            if t@ == "max"@ {
                assert(t@.len() == 3);
                assert(t@[0] == 'm' && t@[1] == 'a' && t@[2] == 'x');
            }
        }
    }
    match parse_dec_u128_range(&t, 0, len) {
        Some(x) => {
            proof {
                assert(t@.subrange(0, len as int) =~= t@);
            }
            if x <= u64::MAX as u128 {
                Ok(x as u64)
            } else {
                proof {
                    assert(crate::text::is_dec_digit(t@.last())) by {
                        assert(t@.last() == t@[t@.len() - 1]);
                    }
                }
                Err(mem_invalid_err(&t))
            }
        },
        None => {
            proof {
                assert(t@.subrange(0, len as int) =~= t@);
            }
            if len >= 2 {
                let unit = t[len - 1];
                let mult = unit_multiplier_exec(unit);
                proof {
                    assert(t@.last() == t@[len - 1]);
                }
                if mult > 0 {
                    proof {
                        // a unit suffix is never a digit, so the whole string
                        // was not all digits
                        assert(!crate::text::is_dec_digit(unit));
                        assert(!all_dec_digits(t@));
                    }
                    match parse_dec_u128_range(&t, 0, len - 1) {
                        Some(n) => {
                            proof {
                                assert(t@.subrange(0, len - 1) =~= t@.drop_last());
                            }
                            match n.checked_mul(mult as u128) {
                                Some(p) => {
                                    if p <= u64::MAX as u128 {
                                        Ok(p as u64)
                                    } else {
                                        Err(mem_invalid_err(&t))
                                    }
                                },
                                None => {
                                    proof {
                                        assert(dec_value(t@.drop_last()) * unit_multiplier(t@.last())
                                            > u64::MAX);
                                    }
                                    Err(mem_invalid_err(&t))
                                },
                            }
                        },
                        None => {
                            proof {
                                assert(t@.subrange(0, len - 1) =~= t@.drop_last());
                                if all_dec_digits(t@.drop_last()) {
                                    assert(dec_value(t@.drop_last()) > u128::MAX);
                                    assert(dec_value(t@.drop_last()) * unit_multiplier(t@.last())
                                        >= dec_value(t@.drop_last())) by (nonlinear_arith)
                                        requires
                                            unit_multiplier(t@.last()) >= 1,
                                    ;
                                }
                            }
                            Err(mem_invalid_err(&t))
                        },
                    }
                } else {
                    // a digits-then-suffix shape whose number fits names the
                    // unknown unit; anything else is an invalid format
                    let prefix_fit = match parse_dec_u128_range(&t, 0, len - 1) {
                        Some(x) => x <= u64::MAX as u128,
                        None => false,
                    };
                    proof {
                        assert(t@.subrange(0, len - 1) =~= t@.drop_last());
                    }
                    if !crate::text::is_dec_digit_exec(unit) && prefix_fit {
                        Err(mem_unknown_unit_err(unit))
                    } else {
                        Err(mem_invalid_err(&t))
                    }
                }
            } else {
                Err(mem_invalid_err(&t))
            }
        },
    }
}

/// The value of a single-counter file: its trimmed contents read as a
/// decimal number, or zero when they are not one (including a missing or
/// `"max"`-valued file).
pub open spec fn counter_spec(s: Seq<char>) -> u64 {
    let t = trim_spec(s);
    if t.len() > 0 && all_dec_digits(t) && dec_value(t) <= u64::MAX {
        dec_value(t) as u64
    } else {
        0
    }
}

/// Read a single-counter file's contents.
pub fn parse_counter(content: &str) -> (r: u64)
    ensures
        r == counter_spec(content@),
{
    let chars = chars_of_str(content);
    let t = trim_chars(&chars);
    match parse_dec_u64(&t) {
        Some(x) => x,
        None => 0,
    }
}

/// The value of one `key value` line, if it is one.
pub open spec fn stat_line_value(l: Seq<char>, key: Seq<char>) -> Option<u64> {
    let tk = tokens_of(l);
    if tk.len() == 2 && tk[0] == key && tk[1].len() > 0 && all_dec_digits(tk[1]) && dec_value(
        tk[1],
    ) <= u64::MAX {
        Some(dec_value(tk[1]) as u64)
    } else {
        None
    }
}

/// The value of the last well-formed `key value` line, or the default.
pub open spec fn stat_field(lines: Seq<Seq<char>>, key: Seq<char>, dflt: u64) -> u64
    decreases lines.len(),
{
    if lines.len() == 0 {
        dflt
    } else {
        match stat_line_value(lines.last(), key) {
            Some(v) => v,
            None => stat_field(lines.drop_last(), key, dflt),
        }
    }
}

/// The value reported for `key` by a `cpu.stat`-style file.
pub open spec fn cpu_stat_field(content: Seq<char>, key: Seq<char>) -> u64 {
    stat_field(split_on(content, '\n'), key, 0)
}

/// Scan a `cpu.stat`-style file for the given key; the last well-formed
/// occurrence wins, and a missing key reads as zero.
pub fn parse_stat_field(content: &Vec<char>, key: &Vec<char>) -> (r: u64)
    ensures
        r == cpu_stat_field(content@, key@),
{
    let lines = split_chars(content, '\n');
    let ghost lv = lines.deep_view();
    let mut acc: u64 = 0;
    let mut i: usize = 0;
    proof {
        assert(lv.subrange(0, 0) =~= Seq::<Seq<char>>::empty());
    }
    while i < lines.len()
        invariant
            0 <= i <= lines@.len(),
            lv == lines.deep_view(),
            lv == split_on(content@, '\n'),
            lv.len() == lines@.len(),
            acc == stat_field(lv.subrange(0, i as int), key@, 0),
        decreases lines@.len() - i,
    {
        let line = &lines[i];
        proof {
            crate::text::lemma_deep_view_char_vec(lines@[i as int]);
            assert(lv[i as int] == lines@[i as int]@);
        }
        let tokens = crate::text::tokenize_chars(line);
        let ghost tv = tokens.deep_view();
        proof {
            assert(tv == tokens_of(line@));
        }
        if tokens.len() == 2 {
            proof {
                crate::text::lemma_deep_view_char_vec(tokens@[0]);
                crate::text::lemma_deep_view_char_vec(tokens@[1]);
                assert(tv[0] == tokens@[0]@);
                assert(tv[1] == tokens@[1]@);
            }
            if chars_eq(&tokens[0], key) {
                match parse_dec_u64(&tokens[1]) {
                    Some(v) => {
                        acc = v;
                        proof {
                            assert(stat_line_value(lv[i as int], key@) == Some(v));
                        }
                    },
                    None => {
                        proof {
                            assert(stat_line_value(lv[i as int], key@) is None);
                        }
                    },
                }
            } else {
                proof {
                    assert(stat_line_value(lv[i as int], key@) is None);
                }
            }
        } else {
            proof {
                assert(tokens_of(lv[i as int]).len() != 2);
                assert(stat_line_value(lv[i as int], key@) is None);
            }
        }
        proof {
            let p = lv.subrange(0, i as int);
            let q = lv.subrange(0, i + 1);
            assert(q.drop_last() =~= p);
            assert(q.last() == lv[i as int]);
        }
        i = i + 1;
    }
    proof {
        assert(lv.subrange(0, lv.len() as int) =~= lv);
    }
    acc
}

/// One write into a control file, to be performed by the caller.
#[derive(Debug, PartialEq, Eq)]
pub struct FileWrite {
    pub path: String,
    pub contents: String,
}

/// One step of the parent-hierarchy setup.
#[derive(Debug, PartialEq, Eq)]
pub enum HierarchyStep {
    /// Write `contents` into `path`; a failure is an error.
    Write { path: String, contents: String },
    /// Create the directory if absent.
    CreateDir { path: String },
    /// Write `contents` into `path`, tolerating the device-busy error that
    /// means the controllers are already enabled.
    WriteToleratingBusy { path: String, contents: String },
}

/// A task cgroup: the leaf directory holding exactly one command.
#[derive(Debug)]
pub struct TaskCgroup {
    /// The random 16-character identifier in the directory name.
    pub id: String,
    /// Absolute path of the task cgroup directory.
    pub path: String,
}

impl TaskCgroup {
    /// The directory is `task-<id>` under the parent subtree.
    pub open spec fn wf(&self) -> bool {
        &&& self.path@ == "/sys/fs/cgroup/faber/task-"@ + self.id@
        &&& self.id@.len() == 16
        &&& is_id_string(self.id@)
    }

    /// The write that attaches a process to this cgroup.
    pub fn add_process(&self, pid: u32) -> (w: FileWrite)
        ensures
            w.path@ == self.path@ + "/cgroup.procs"@,
            w.contents@ == dec_digits(pid as nat),
    {
        FileWrite {
            path: str_concat(self.path.as_str(), "/cgroup.procs"),
            contents: u64_to_string(pid as u64),
        }
    }

    /// The directory that must be removed to destroy this cgroup; it may
    /// only be removed after the command has been reaped.
    pub fn cleanup(&self) -> (p: String)
        ensures
            p@ == self.path@,
    {
        self.path.clone()
    }

    /// Compute the task statistics from the contents of the cgroup's
    /// statistic files, each `None` when the file was absent. Missing files
    /// collapse to zero; `pids.current` stands in for an absent `pids.peak`.
    pub fn measure_resources(
        cpu_stat: Option<&str>,
        memory_peak: Option<&str>,
        pids_peak: Option<&str>,
        pids_current: Option<&str>,
    ) -> (r: TaskResultStats)
        ensures
            r.cpu_usage_usec == (match cpu_stat {
                Some(c) => cpu_stat_field(c@, "usage_usec"@),
                None => 0,
            }),
            r.memory_peak_bytes == (match memory_peak {
                Some(c) => counter_spec(c@),
                None => 0,
            }),
            r.pids_peak == (match pids_peak {
                Some(c) => counter_spec(c@),
                None => match pids_current {
                    Some(c) => counter_spec(c@),
                    None => 0,
                },
            }),
            r.execution_time_ms == 0,
    {
        let cpu_usage_usec = match cpu_stat {
            Some(c) => {
                let chars = chars_of_str(c);
                let key = chars_of_str("usage_usec");
                parse_stat_field(&chars, &key)
            },
            None => 0,
        };
        let memory_peak_bytes = match memory_peak {
            Some(c) => parse_counter(c),
            None => 0,
        };
        let pids = match pids_peak {
            Some(c) => parse_counter(c),
            None => match pids_current {
                Some(c) => parse_counter(c),
                None => 0,
            },
        };
        TaskResultStats {
            memory_peak_bytes,
            cpu_usage_usec,
            execution_time_ms: 0,
            pids_peak: pids,
        }
    }
}

/// The cgroup manager: computes the control-file writes for task cgroups
/// under the parent subtree.
#[derive(Debug)]
pub struct Cgroup {
    pub config: CgroupConfig,
}

impl Clone for Cgroup {
    /// Cloning preserves the configured limits.
    fn clone(&self) -> (r: Self)
        ensures
            r.config.cpu_max@ == self.config.cpu_max@,
            r.config.memory_max@ == self.config.memory_max@,
            r.config.pids_max == self.config.pids_max,
    {
        Cgroup { config: self.config.clone() }
    }
}

impl Default for Cgroup {
    /// The default manager carries the default limits.
    fn default() -> (r: Self)
        ensures
            r.config.cpu_max@ == "50000 100000"@,
            r.config.memory_max@ == "128M"@,
            r.config.pids_max == 64,
    {
        Cgroup { config: CgroupConfig::default() }
    }
}

impl Cgroup {
    pub fn new(config: CgroupConfig) -> (r: Self)
        ensures
            r.config.cpu_max@ == config.cpu_max@,
            r.config.memory_max@ == config.memory_max@,
            r.config.pids_max == config.pids_max,
    {
        Cgroup { config }
    }

    /// The once-per-process steps that bring up the parent subtree: enable
    /// the controllers at the root, create `faber`, enable its controllers
    /// tolerating the already-enabled case.
    pub fn hierarchy_plan() -> (v: Vec<HierarchyStep>)
        ensures
            v@.len() == 3,
            v@[0] matches HierarchyStep::Write { path, contents }
                && path@ == "/sys/fs/cgroup/cgroup.subtree_control"@
                && contents@ == "+cpu +memory +pids"@,
            v@[1] matches HierarchyStep::CreateDir { path } && path@ == "/sys/fs/cgroup/faber"@,
            v@[2] matches HierarchyStep::WriteToleratingBusy { path, contents }
                && path@ == "/sys/fs/cgroup/faber/cgroup.subtree_control"@
                && contents@ == "+cpu +memory +pids"@,
    {
        let mut v: Vec<HierarchyStep> = Vec::new();
        v.push(HierarchyStep::Write {
            path: "/sys/fs/cgroup/cgroup.subtree_control".to_owned(),
            contents: "+cpu +memory +pids".to_owned(),
        });
        v.push(HierarchyStep::CreateDir { path: "/sys/fs/cgroup/faber".to_owned() });
        v.push(HierarchyStep::WriteToleratingBusy {
            path: "/sys/fs/cgroup/faber/cgroup.subtree_control".to_owned(),
            contents: "+cpu +memory +pids".to_owned(),
        });
        v
    }

    /// Create the description of a fresh task cgroup: a random directory
    /// name under the parent subtree and the three control-file writes that
    /// configure it. Succeeds exactly when the configured memory limit is
    /// well-formed; the caller creates the directory, performs the writes
    /// in order, and later destroys the directory.
    pub fn create_task_cgroup(&self) -> (r: Result<(TaskCgroup, Vec<FileWrite>), FaberError>)
        ensures
            r is Ok <==> mem_limit_spec(self.config.memory_max@) is Some,
            match r {
                Ok((tc, writes)) => {
                    &&& tc.wf()
                    &&& writes@.len() == 3
                    &&& writes@[0].path@ == tc.path@ + "/cpu.max"@
                    &&& writes@[0].contents@ == self.config.cpu_max@
                    &&& writes@[1].path@ == tc.path@ + "/memory.max"@
                    &&& mem_limit_spec(self.config.memory_max@) matches Some(m)
                        && writes@[1].contents@ == dec_digits(m as nat)
                    &&& writes@[2].path@ == tc.path@ + "/pids.max"@
                    &&& writes@[2].contents@ == dec_digits(self.config.pids_max as nat)
                },
                Err(e) => e is Generic,
            },
    {
        let memory_max_bytes = match parse_memory_string(self.config.memory_max.as_str()) {
            Ok(v) => v,
            Err(e) => {
                return Err(e);
            },
        };
        let id = generate_random_string(16);
        let path = str_concat("/sys/fs/cgroup/faber/task-", id.as_str());
        let tc = TaskCgroup { id, path };
        let mut writes: Vec<FileWrite> = Vec::new();
        writes.push(FileWrite {
            path: str_concat(tc.path.as_str(), "/cpu.max"),
            contents: self.config.cpu_max.clone(),
        });
        writes.push(FileWrite {
            path: str_concat(tc.path.as_str(), "/memory.max"),
            contents: u64_to_string(memory_max_bytes),
        });
        writes.push(FileWrite {
            path: str_concat(tc.path.as_str(), "/pids.max"),
            contents: u64_to_string(self.config.pids_max as u64),
        });
        Ok((tc, writes))
    }

    /// Compute the full statistics of a task cgroup from the contents of
    /// its statistic files, each `None` when absent. Missing files collapse
    /// to zero, never an error.
    pub fn read_task_stats(
        cpu_stat: Option<&str>,
        memory_current: Option<&str>,
        memory_peak: Option<&str>,
        memory_max: Option<&str>,
        pids_current: Option<&str>,
        pids_max: Option<&str>,
    ) -> (r: TaskStats)
        ensures
            r.cpu.usage_usec == (match cpu_stat {
                Some(c) => cpu_stat_field(c@, "usage_usec"@),
                None => 0,
            }),
            r.cpu.user_usec == (match cpu_stat {
                Some(c) => cpu_stat_field(c@, "user_usec"@),
                None => 0,
            }),
            r.cpu.system_usec == (match cpu_stat {
                Some(c) => cpu_stat_field(c@, "system_usec"@),
                None => 0,
            }),
            r.memory.current == (match memory_current {
                Some(c) => counter_spec(c@),
                None => 0,
            }),
            r.memory.peak == (match memory_peak {
                Some(c) => counter_spec(c@),
                None => 0,
            }),
            r.memory.max == (match memory_max {
                Some(c) => counter_spec(c@),
                None => 0,
            }),
            r.pids.current == (match pids_current {
                Some(c) => counter_spec(c@),
                None => 0,
            }),
            r.pids.max == (match pids_max {
                Some(c) => counter_spec(c@),
                None => 0,
            }),
    {
        let cpu = match cpu_stat {
            Some(c) => {
                let chars = chars_of_str(c);
                let usage_key = chars_of_str("usage_usec");
                let user_key = chars_of_str("user_usec");
                let system_key = chars_of_str("system_usec");
                CpuStats {
                    usage_usec: parse_stat_field(&chars, &usage_key),
                    user_usec: parse_stat_field(&chars, &user_key),
                    system_usec: parse_stat_field(&chars, &system_key),
                }
            },
            None => CpuStats::default(),
        };
        let memory = MemoryStats {
            current: match memory_current {
                Some(c) => parse_counter(c),
                None => 0,
            },
            peak: match memory_peak {
                Some(c) => parse_counter(c),
                None => 0,
            },
            max: match memory_max {
                Some(c) => parse_counter(c),
                None => 0,
            },
        };
        let pids = PidsStats {
            current: match pids_current {
                Some(c) => parse_counter(c),
                None => 0,
            },
            max: match pids_max {
                Some(c) => parse_counter(c),
                None => 0,
            },
        };
        TaskStats { cpu, memory, pids }
    }
}

} // verus!
