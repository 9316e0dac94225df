//! The choices of one comparison job: its identifier, its options, and the
//! small decisions between the runs.

use crate::clock::system_now;
use crate::report::ReportFormat;
use crate::sandbox::{job_id_check, SandboxError};
use crate::text::{
    chars_of, decimal, fixed_hex, hex, is_path_safe_char, push_decimal, push_fixed_hex, push_hex,
    push_text, string_of_range, text_eq,
};
use vstd::prelude::*;

verus! {

/// The bit pattern of the double 10.0.
pub const TEN_DOLLAR_BITS: u64 = 0x4024_0000_0000_0000;

/// The options of a comparison.
#[derive(Debug, Clone)]
pub struct CompareOptions {
    /// The branch to compare; the default branch where none is given.
    pub branch: Option<String>,
    /// The path within the repository to look at.
    pub src_path: Option<String>,
    /// The task set: `standard`, `quick`, or the path of a file.
    pub task_set: String,
    /// The runs per task.
    pub runs: u32,
    /// The directory of the report.
    pub output: Option<String>,
    pub format: ReportFormat,
    /// The most that may be spent, in dollars, as the bit pattern of a
    /// double.
    pub max_budget_bits: u64,
    /// Whether results in the cache are used.
    pub use_cache: bool,
    /// Whether the quick task set is used whatever `task_set` says.
    pub quick: bool,
    pub model: String,
}

impl CompareOptions {
    /// The options of a comparison that states none: the standard task
    /// set, one run, both report formats, a budget of ten dollars, the
    /// cache in use, the model `sonnet`.
    pub fn new() -> (options: CompareOptions)
        ensures
            options.branch is None,
            options.src_path is None,
            options.task_set@ == "standard"@,
            options.runs == 1,
            options.output is None,
            options.format == ReportFormat::Both,
            options.max_budget_bits == TEN_DOLLAR_BITS,
            options.use_cache,
            !options.quick,
            options.model@ == "sonnet"@,
    {
        CompareOptions {
            branch: None,
            src_path: None,
            task_set: String::from_str("standard"),
            runs: 1,
            output: None,
            format: ReportFormat::Both,
            max_budget_bits: TEN_DOLLAR_BITS,
            use_cache: true,
            quick: false,
            model: String::from_str("sonnet"),
        }
    }
}

impl Default for CompareOptions {
    fn default() -> (options: CompareOptions)
        ensures
            options.branch is None,
            options.src_path is None,
            options.task_set@ == "standard"@,
            options.runs == 1,
            options.output is None,
            options.format == ReportFormat::Both,
            options.max_budget_bits == TEN_DOLLAR_BITS,
            options.use_cache,
            !options.quick,
            options.model@ == "sonnet"@,
    {
        CompareOptions::new()
    }
}

/// The part of a job identifier that tells jobs of the same second apart:
/// the microseconds into the second, modulo 65536.
pub open spec fn job_salt(nanos: u32) -> nat {
    ((nanos / 1000) % 65536) as nat
}

/// The identifier of the job started at `secs` seconds and `nanos`
/// nanoseconds after the epoch: `cmp-`, the seconds in base sixteen, a
/// hyphen, and the salt as four hex digits.
pub open spec fn job_id_of(secs: u64, nanos: u32) -> Seq<char> {
    "cmp-"@ + hex(secs as nat) + "-"@ + fixed_hex(job_salt(nanos), 4)
}

/// The identifier of the job started at the given time.
pub fn job_id_at(secs: u64, nanos: u32) -> (id: String)
    ensures
        id@ == job_id_of(secs, nanos),
{
    let mut id = String::from_str("cmp-");
    push_hex(&mut id, secs);
    push_text(&mut id, "-");
    let micros: u32 = nanos / 1000;
    let salt: u32 = micros % 65536;
    push_fixed_hex(&mut id, salt.into(), 4);
    id
}

/// An identifier for a job started now. It is the identifier of some
/// time with less than a second of nanoseconds; a clock that stands before
/// the epoch gives the identifier of the epoch.
pub fn generate_job_id() -> (id: String)
    ensures
        exists|secs: u64, nanos: u32|
            nanos < 1_000_000_000 && id@ == #[trigger] job_id_of(secs, nanos),
{
    let (secs, nanos) = system_now();
    let id = job_id_at(secs, nanos);
    assert(nanos < 1_000_000_000 && id@ == job_id_of(secs, nanos));
    id
}

/// Every job identifier passes the check that a sandbox makes of it: it is
/// not empty and holds only characters that may stand in a path component.
pub proof fn lemma_job_id_is_valid(secs: u64, nanos: u32)
    ensures
        job_id_check(job_id_of(secs, nanos)) == Ok::<(), SandboxError>(()),
{
    reveal_strlit("cmp-");
    reveal_strlit("-");
    crate::text::lemma_hex_safe(secs as nat);
    crate::text::lemma_fixed_hex_safe(job_salt(nanos), 4);
    let id = job_id_of(secs, nanos);
    let a = "cmp-"@;
    let b = hex(secs as nat);
    let c = "-"@;
    let d = fixed_hex(job_salt(nanos), 4);
    assert(id == a + b + c + d);
    assert forall|i: int| 0 <= i < id.len() implies is_path_safe_char(#[trigger] id[i]) by {
        if i < a.len() {
            assert(id[i] == a[i]);
        } else if i < a.len() + b.len() {
            assert(id[i] == b[i - a.len()]);
        } else if i < a.len() + b.len() + c.len() {
            assert(id[i] == c[i - a.len() - b.len()]);
        } else {
            assert(id[i] == d[i - a.len() - b.len() - c.len()]);
        }
    }
}

/// The commit as it is shown: its first eight characters.
pub open spec fn short_sha_of(sha: Seq<char>) -> Seq<char> {
    if sha.len() >= 8 {
        sha.take(8)
    } else {
        sha
    }
}

/// The commit as it is shown.
pub fn short_sha(sha: &str) -> (out: String)
    ensures
        out@ == short_sha_of(sha@),
{
    let chars = chars_of(sha);
    if chars.len() >= 8 {
        string_of_range(&chars, 0, 8)
    } else {
        let out = string_of_range(&chars, 0, chars.len());
        assert(chars@.subrange(0, chars.len() as int) == chars@);
        out
    }
}

/// The identifier of the task that is made from the issue `number`.
pub open spec fn issue_task_id_of(number: u64) -> Seq<char> {
    "issue-"@ + decimal(number as nat)
}

/// The identifier of the task that is made from the issue `number`.
pub fn issue_task_id(number: u64) -> (id: String)
    ensures
        id@ == issue_task_id_of(number),
{
    let mut id = String::from_str("issue-");
    push_decimal(&mut id, number);
    id
}

/// Where the tasks of a comparison come from.
#[derive(Debug, Clone, Copy, PartialEq, Eq, Structural)]
pub enum TaskSource {
    /// The standard set.
    Standard,
    /// The quick set.
    Quick,
    /// A file, named by the option.
    File,
}

/// Where the tasks come from, for the option `task_set` and the switch
/// `quick`. The switch wins over the option.
pub open spec fn task_source_of(task_set: Seq<char>, quick: bool) -> TaskSource {
    if quick || task_set == "quick"@ {
        TaskSource::Quick
    } else if task_set == "standard"@ {
        TaskSource::Standard
    } else {
        TaskSource::File
    }
}

/// Where the tasks of a comparison with the options `options` come from.
pub fn task_source(options: &CompareOptions) -> (source: TaskSource)
    ensures
        source == task_source_of(options.task_set@, options.quick),
{
    if options.quick {
        TaskSource::Quick
    } else if text_eq(options.task_set.as_str(), "standard") {
        proof {
            reveal_strlit("standard");
            reveal_strlit("quick");
            assert("standard"@.len() != "quick"@.len());
        }
        TaskSource::Standard
    } else if text_eq(options.task_set.as_str(), "quick") {
        TaskSource::Quick
    } else {
        TaskSource::File
    }
}

/// Whether the result of a run is stored in the cache: where the cache is
/// in use and the run succeeded.
pub fn should_store(use_cache: bool, succeeded: bool) -> (r: bool)
    ensures
        r == (use_cache && succeeded),
{
    use_cache && succeeded
}

/// The branch that a report names: the one compared, or `main`.
pub fn branch_name(branch: &Option<String>) -> (name: String)
    ensures
        name@ == match *branch {
            Some(b) => b@,
            None => "main"@,
        },
{
    match branch {
        Some(b) => String::from_str(b.as_str()),
        None => String::from_str("main"),
    }
}

} // verus!
