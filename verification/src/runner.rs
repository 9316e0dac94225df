//! The result of one run, and the command line that starts one.

use crate::metrics::{
    coherent, empty_metrics, events_of, opt_text, parse_stream_json, parsed, FmmUsage,
    NavigationMetrics, RunMetrics, RunMetricsView, ToolCount, ToolRecord,
};
use crate::tasks::Task;
use crate::text::{decimal, push_decimal, push_text, texts};
use vstd::prelude::*;
use vstd::utf8::encode_utf8;

verus! {

/// The result of one run of one task under one variant.
#[derive(Debug, Clone)]
pub struct RunResult {
    pub task_id: String,
    pub variant: String,
    pub tool_calls: u32,
    pub tools_by_name: Vec<ToolCount>,
    pub files_accessed: Vec<String>,
    pub read_calls: u32,
    pub input_tokens: u64,
    pub output_tokens: u64,
    pub cache_read_tokens: u64,
    /// The cost in dollars, as the bit pattern of a double.
    pub total_cost_usd_bits: u64,
    pub duration_ms: u64,
    pub num_turns: u32,
    pub response: String,
    pub success: bool,
    pub error: Option<String>,
    pub tool_details: Vec<ToolRecord>,
    pub navigation: NavigationMetrics,
    pub fmm_usage: FmmUsage,
}

/// The view of a [`RunResult`]: the task and variant it belongs to, its
/// response, and its metrics. The count of tokens spent on creating cache
/// entries is not kept in a result and reads 0 here.
pub struct RunResultView {
    pub task_id: Seq<char>,
    pub variant: Seq<char>,
    pub response: Seq<char>,
    pub metrics: RunMetricsView,
}

impl View for RunResult {
    type V = RunResultView;

    open spec fn view(&self) -> RunResultView {
        RunResultView {
            task_id: self.task_id@,
            variant: self.variant@,
            response: self.response@,
            metrics: RunMetricsView {
                input_tokens: self.input_tokens,
                output_tokens: self.output_tokens,
                cache_read_tokens: self.cache_read_tokens,
                cache_creation_tokens: 0,
                cost_usd_bits: self.total_cost_usd_bits,
                turns: self.num_turns,
                duration_ms: self.duration_ms,
                tool_calls: self.tool_calls,
                tools_by_name: crate::metrics::counts(self.tools_by_name@),
                files_accessed: texts(self.files_accessed@),
                read_calls: self.read_calls,
                success: self.success,
                error: opt_text(self.error),
                tool_details: crate::metrics::stats(self.tool_details@),
                navigation: self.navigation,
                fmm_usage: self.fmm_usage@,
            },
        }
    }
}

/// The metrics `m` as they are kept in a result.
pub open spec fn kept(m: RunMetricsView) -> RunMetricsView {
    RunMetricsView { cache_creation_tokens: 0, ..m }
}

impl RunResult {
    /// The two lists of tools agree, and each tool is named once.
    pub open spec fn wf(&self) -> bool {
        coherent(self@.metrics)
    }

    /// The result of the run of task `task_id` under `variant` that had the
    /// metrics `m` and the response `response`.
    pub fn from_metrics(m: RunMetrics, response: String, task_id: &str, variant: &str) -> (r:
        RunResult)
        ensures
            r@ == (RunResultView {
                task_id: task_id@,
                variant: variant@,
                response: response@,
                metrics: kept(m@),
            }),
            m.wf() ==> r.wf(),
    {
        RunResult {
            task_id: String::from_str(task_id),
            variant: String::from_str(variant),
            tool_calls: m.tool_calls,
            tools_by_name: m.tools_by_name,
            files_accessed: m.files_accessed,
            read_calls: m.read_calls,
            input_tokens: m.input_tokens,
            output_tokens: m.output_tokens,
            cache_read_tokens: m.cache_read_tokens,
            total_cost_usd_bits: m.cost_usd_bits,
            duration_ms: m.duration_ms,
            num_turns: m.turns,
            response,
            success: m.success,
            error: m.error,
            tool_details: m.tool_details,
            navigation: m.navigation,
            fmm_usage: m.fmm_usage,
        }
    }
}

/// The largest prompt that is passed on, in bytes.
pub const MAX_PROMPT_SIZE: usize = 102_400;

/// The largest added context that is passed on, in bytes.
pub const MAX_CONTEXT_SIZE: usize = 512_000;

/// Why a run is not started.
#[derive(Debug, Clone, Copy, PartialEq, Eq, Structural)]
pub enum RunnerError {
    /// The prompt of the task is longer than [`MAX_PROMPT_SIZE`].
    PromptTooLarge,
    /// The added context is longer than [`MAX_CONTEXT_SIZE`].
    ContextTooLarge,
}

/// The settings under which the assistant is started.
#[derive(Debug, Clone)]
pub struct ClaudeRunner {
    /// The tools the assistant may use.
    pub allowed_tools: Vec<String>,
    pub model: String,
    pub skip_permissions: bool,
    /// Whether the settings of the workspace are read.
    pub enable_local_settings: bool,
}

/// The tools a new runner allows.
pub open spec fn default_tools() -> Seq<Seq<char>> {
    seq!["Read"@, "Glob"@, "Grep"@, "LS"@, "Edit"@, "Write"@, "Bash"@]
}

/// `words` joined by `sep`.
pub open spec fn join(words: Seq<Seq<char>>, sep: Seq<char>) -> Seq<char>
    decreases words.len(),
{
    if words.len() == 0 {
        Seq::empty()
    } else if words.len() == 1 {
        words[0]
    } else {
        join(words.drop_last(), sep) + sep + words.last()
    }
}

/// The length of `s` in bytes, as UTF-8.
pub open spec fn byte_len(s: Seq<char>) -> nat {
    encode_utf8(s).len()
}

/// `n` written in base ten, with a minus sign where it is negative.
pub open spec fn signed_decimal(n: int) -> Seq<char> {
    if n < 0 {
        "-"@ + decimal((-n) as nat)
    } else {
        decimal(n as nat)
    }
}

/// The view of an optional text.
pub open spec fn opt_str(s: Option<&str>) -> Option<Seq<char>> {
    match s {
        Some(s) => Some(s@),
        None => None,
    }
}

/// The arguments with which the assistant is started for a task with the
/// prompt `prompt`, `max_turns` turns and the budget written as `budget`.
pub open spec fn arguments_of(
    allowed_tools: Seq<Seq<char>>,
    model: Seq<char>,
    skip_permissions: bool,
    enable_local_settings: bool,
    prompt: Seq<char>,
    max_turns: u32,
    budget: Seq<char>,
    context: Option<Seq<char>>,
) -> Seq<Seq<char>> {
    seq![
        "-p"@,
        prompt,
        "--output-format"@,
        "stream-json"@,
        "--verbose"@,
        "--max-turns"@,
        decimal(max_turns as nat),
        "--max-budget-usd"@,
        budget,
        "--model"@,
        model,
    ] + (if allowed_tools.len() > 0 {
        seq!["--allowedTools"@, join(allowed_tools, ","@)]
    } else {
        Seq::empty()
    }) + seq![
        "--setting-sources"@,
        if enable_local_settings {
            "local"@
        } else {
            ""@
        },
    ] + (match context {
        Some(c) => seq!["--append-system-prompt"@, c],
        None => Seq::empty(),
    }) + (if skip_permissions {
        seq!["--dangerously-skip-permissions"@]
    } else {
        Seq::empty()
    }) + seq!["--no-session-persistence"@]
}

/// Adds a copy of `word` to a list of arguments.
fn push_word(list: &mut Vec<String>, word: &str)
    ensures
        texts(final(list)@) == texts(old(list)@).push(word@),
{
    list.push(String::from_str(word));
    assert(texts(list@) =~= texts(old(list)@).push(word@));
}

/// Joins `words` by `sep`.
pub fn join_words(words: &Vec<String>, sep: &str) -> (out: String)
    ensures
        out@ == join(texts(words@), sep@),
{
    let mut out = String::new();
    let mut i: usize = 0;
    assert(texts(words@).take(0) =~= Seq::empty());
    while i < words.len()
        invariant
            0 <= i <= words.len(),
            out@ == join(texts(words@).take(i as int), sep@),
        decreases words.len() - i,
    {
        let ghost before = texts(words@).take(i as int);
        let ghost next = texts(words@).take(i + 1);
        assert(next.drop_last() =~= before);
        assert(next.last() == words@[i as int]@);
        if i > 0 {
            push_text(&mut out, sep);
        } else {
            assert(out@ + words@[i as int]@ =~= words@[i as int]@);
        }
        push_text(&mut out, words[i].as_str());
        i += 1;
    }
    assert(texts(words@).take(i as int) =~= texts(words@));
    out
}

impl ClaudeRunner {
    /// A runner that allows the seven standard tools, uses the model
    /// `sonnet`, skips the permission prompts and reads no settings of the
    /// workspace.
    pub fn new() -> (runner: ClaudeRunner)
        ensures
            texts(runner.allowed_tools@) == default_tools(),
            runner.model@ == "sonnet"@,
            runner.skip_permissions,
            !runner.enable_local_settings,
    {
        let mut allowed_tools: Vec<String> = Vec::new();
        assert(texts(allowed_tools@) =~= Seq::empty());
        push_word(&mut allowed_tools, "Read");
        push_word(&mut allowed_tools, "Glob");
        push_word(&mut allowed_tools, "Grep");
        push_word(&mut allowed_tools, "LS");
        push_word(&mut allowed_tools, "Edit");
        push_word(&mut allowed_tools, "Write");
        push_word(&mut allowed_tools, "Bash");
        assert(texts(allowed_tools@) =~= default_tools());
        ClaudeRunner {
            allowed_tools,
            model: String::from_str("sonnet"),
            skip_permissions: true,
            enable_local_settings: false,
        }
    }

    /// A runner like a new one that reads the settings of the workspace.
    pub fn with_local_settings() -> (runner: ClaudeRunner)
        ensures
            texts(runner.allowed_tools@) == default_tools(),
            runner.model@ == "sonnet"@,
            runner.skip_permissions,
            runner.enable_local_settings,
    {
        let base = ClaudeRunner::new();
        ClaudeRunner {
            allowed_tools: base.allowed_tools,
            model: base.model,
            skip_permissions: base.skip_permissions,
            enable_local_settings: true,
        }
    }

    /// Sets the model.
    pub fn set_model(&mut self, model: &str)
        ensures
            final(self).model@ == model@,
            final(self).allowed_tools == old(self).allowed_tools,
            final(self).skip_permissions == old(self).skip_permissions,
            final(self).enable_local_settings == old(self).enable_local_settings,
    {
        self.model = String::from_str(model);
    }

    /// The arguments with which the assistant is started for `task`.
    /// `budget` is the budget of the task as text and `fmm_context` is
    /// added to the system prompt where it is given. No arguments are
    /// given for a prompt or a context beyond the size limit; the prompt is
    /// looked at first.
    pub fn arguments(&self, task: &Task, budget: &str, fmm_context: Option<&str>) -> (r: Result<
        Vec<String>,
        RunnerError,
    >)
        ensures
            match r {
                Ok(args) => {
                    &&& byte_len(task.prompt@) <= MAX_PROMPT_SIZE
                    &&& fmm_context matches Some(c) ==> byte_len(c@) <= MAX_CONTEXT_SIZE
                    &&& texts(args@) == arguments_of(
                        texts(self.allowed_tools@),
                        self.model@,
                        self.skip_permissions,
                        self.enable_local_settings,
                        task.prompt@,
                        task.max_turns,
                        budget@,
                        opt_str(fmm_context),
                    )
                },
                Err(RunnerError::PromptTooLarge) => byte_len(task.prompt@) > MAX_PROMPT_SIZE,
                Err(RunnerError::ContextTooLarge) => {
                    &&& byte_len(task.prompt@) <= MAX_PROMPT_SIZE
                    &&& fmm_context matches Some(c) && byte_len(c@) > MAX_CONTEXT_SIZE
                },
            },
    {
        if task.prompt.as_str().as_bytes().len() > MAX_PROMPT_SIZE {
            return Err(RunnerError::PromptTooLarge);
        }
        match fmm_context {
            Some(c) => {
                if c.as_bytes().len() > MAX_CONTEXT_SIZE {
                    return Err(RunnerError::ContextTooLarge);
                }
            },
            None => {},
        }
        let mut args: Vec<String> = Vec::new();
        assert(texts(args@) =~= Seq::empty());
        push_word(&mut args, "-p");
        push_word(&mut args, task.prompt.as_str());
        push_word(&mut args, "--output-format");
        push_word(&mut args, "stream-json");
        push_word(&mut args, "--verbose");
        push_word(&mut args, "--max-turns");
        let mut turns = String::new();
        push_decimal(&mut turns, task.max_turns as u64);
        assert(turns@ =~= decimal(task.max_turns as nat));
        push_word(&mut args, turns.as_str());
        push_word(&mut args, "--max-budget-usd");
        push_word(&mut args, budget);
        push_word(&mut args, "--model");
        push_word(&mut args, self.model.as_str());
        let ghost a1 = texts(args@);
        assert(a1 =~= seq![
            "-p"@,
            task.prompt@,
            "--output-format"@,
            "stream-json"@,
            "--verbose"@,
            "--max-turns"@,
            decimal(task.max_turns as nat),
            "--max-budget-usd"@,
            budget@,
            "--model"@,
            self.model@,
        ]);
        assert(texts(self.allowed_tools@).len() == self.allowed_tools@.len());
        if self.allowed_tools.len() > 0 {
            push_word(&mut args, "--allowedTools");
            let tools = join_words(&self.allowed_tools, ",");
            push_word(&mut args, tools.as_str());
        }
        let ghost a2 = texts(args@);
        assert(a2 =~= a1 + (if texts(self.allowed_tools@).len() > 0 {
            seq!["--allowedTools"@, join(texts(self.allowed_tools@), ","@)]
        } else {
            Seq::empty()
        }));
        push_word(&mut args, "--setting-sources");
        if self.enable_local_settings {
            push_word(&mut args, "local");
        } else {
            push_word(&mut args, "");
        }
        let ghost a3 = texts(args@);
        assert(a3 =~= a2 + seq![
            "--setting-sources"@,
            if self.enable_local_settings {
                "local"@
            } else {
                ""@
            },
        ]);
        match fmm_context {
            Some(c) => {
                push_word(&mut args, "--append-system-prompt");
                push_word(&mut args, c);
            },
            None => {},
        }
        let ghost a4 = texts(args@);
        assert(a4 =~= a3 + (match opt_str(fmm_context) {
            Some(c) => seq!["--append-system-prompt"@, c],
            None => Seq::empty(),
        }));
        if self.skip_permissions {
            push_word(&mut args, "--dangerously-skip-permissions");
        }
        let ghost a5 = texts(args@);
        assert(a5 =~= a4 + (if self.skip_permissions {
            seq!["--dangerously-skip-permissions"@]
        } else {
            Seq::empty()
        }));
        push_word(&mut args, "--no-session-persistence");
        assert(texts(args@) =~= a5 + seq!["--no-session-persistence"@]);
        Ok(args)
    }
}

impl Default for ClaudeRunner {
    fn default() -> (runner: ClaudeRunner)
        ensures
            texts(runner.allowed_tools@) == default_tools(),
            runner.model@ == "sonnet"@,
            runner.skip_permissions,
            !runner.enable_local_settings,
    {
        ClaudeRunner::new()
    }
}

/// The error text for a command that ended with the status `code`, or
/// without one.
pub open spec fn exit_message(code: Option<i32>) -> Seq<char> {
    "CLI exited with status "@ + signed_decimal(
        match code {
            Some(c) => c as int,
            None => -1,
        },
    )
}

/// The result of a run whose command ended. `succeeded` tells whether the
/// command reported success; `stdout` is the transcript and `stderr` what
/// the command wrote beside it.
///
/// A command that failed and wrote no transcript gives an empty result
/// with `stderr` as its error. Any other run gives the metrics read off the
/// transcript; where the command failed, the run did not succeed, and an
/// error is made from the exit status unless the transcript named one.
pub open spec fn run_result_of(
    succeeded: bool,
    stdout: Seq<char>,
    stderr: Seq<char>,
    duration_ms: u64,
    code: Option<i32>,
    task_id: Seq<char>,
    variant: Seq<char>,
) -> RunResultView {
    if !succeeded && stdout.len() == 0 {
        RunResultView {
            task_id,
            variant,
            response: Seq::empty(),
            metrics: RunMetricsView {
                duration_ms: duration_ms,
                error: Some(stderr),
                ..empty_metrics()
            },
        }
    } else {
        let read = parsed(events_of(stdout), duration_ms);
        let metrics = kept(read.metrics);
        RunResultView {
            task_id,
            variant,
            response: read.response_text,
            metrics: if succeeded {
                metrics
            } else {
                RunMetricsView {
                    success: false,
                    error: match metrics.error {
                        Some(e) => Some(e),
                        None => Some(exit_message(code)),
                    },
                    ..metrics
                }
            },
        }
    }
}

/// Appends `n` in base ten, with a minus sign where it is negative.
fn push_signed(out: &mut String, n: i32)
    ensures
        final(out)@ == old(out)@ + signed_decimal(n as int),
{
    if n < 0 {
        push_text(out, "-");
        let magnitude: u64 = (-(n as i64)) as u64;
        push_decimal(out, magnitude);
        assert(old(out)@ + "-"@ + decimal(magnitude as nat) =~= old(out)@ + ("-"@ + decimal(
            (-(n as int)) as nat,
        )));
    } else {
        push_decimal(out, n as u64);
    }
}

/// The result of a run whose command ended.
pub fn finish_run(
    succeeded: bool,
    stdout: &str,
    stderr: &str,
    duration_ms: u64,
    code: Option<i32>,
    task_id: &str,
    variant: &str,
) -> (r: RunResult)
    ensures
        r@ == run_result_of(succeeded, stdout@, stderr@, duration_ms, code, task_id@, variant@),
        r.wf(),
{
    if !succeeded && stdout.is_empty() {
        let mut metrics = RunMetrics::new();
        metrics.duration_ms = duration_ms;
        metrics.error = Some(String::from_str(stderr));
        return RunResult::from_metrics(metrics, String::new(), task_id, variant);
    }
    let read = parse_stream_json(stdout, duration_ms);
    let mut result = RunResult::from_metrics(read.metrics, read.response_text, task_id, variant);
    if !succeeded {
        result.success = false;
        if result.error.is_none() {
            let mut message = String::from_str("CLI exited with status ");
            let n: i32 = match code {
                Some(c) => c,
                None => -1,
            };
            push_signed(&mut message, n);
            result.error = Some(message);
        }
    }
    result
}

} // verus!
