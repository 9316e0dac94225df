//! The comparison of the two variants over the tasks of one job.
//!
//! This module holds the counts of a comparison: which variant won each
//! task, and the totals of each variant. The ratios and averages that are
//! drawn from the counts are formed by the caller.

use crate::evaluator::EvalScores;
use crate::metrics::{counts, ToolCount};
use crate::runner::RunResult;
use crate::tasks::Task;
use crate::text::{chars_of, decimal, push_decimal, push_text, string_of, string_of_range, texts};
use vstd::prelude::*;

verus! {

/// The form in which a report is written.
#[derive(Debug, Clone, Copy, PartialEq, Eq, Structural)]
pub enum ReportFormat {
    Json,
    Markdown,
    Both,
}

impl ReportFormat {
    /// Whether a JSON file is written.
    pub open spec fn has_json(self) -> bool {
        self == ReportFormat::Json || self == ReportFormat::Both
    }

    /// Whether a Markdown file is written.
    pub open spec fn has_markdown(self) -> bool {
        self == ReportFormat::Markdown || self == ReportFormat::Both
    }

    /// Whether a JSON file is written.
    pub fn includes_json(&self) -> (r: bool)
        ensures
            r == self.has_json(),
    {
        match self {
            ReportFormat::Json => true,
            ReportFormat::Markdown => false,
            ReportFormat::Both => true,
        }
    }

    /// Whether a Markdown file is written.
    pub fn includes_markdown(&self) -> (r: bool)
        ensures
            r == self.has_markdown(),
    {
        match self {
            ReportFormat::Json => false,
            ReportFormat::Markdown => true,
            ReportFormat::Both => true,
        }
    }
}

impl Default for ReportFormat {
    fn default() -> (format: ReportFormat)
        ensures
            format == ReportFormat::Both,
    {
        ReportFormat::Both
    }
}

/// `s` cut to at most `max_len` characters: whole where it is that short,
/// else its first `max_len - 3` characters and three dots. Under a limit of
/// less than three, a longer text is cut to the three dots alone.
pub open spec fn truncated(s: Seq<char>, max_len: nat) -> Seq<char> {
    if s.len() <= max_len {
        s
    } else if max_len >= 3 {
        s.take(max_len - 3) + "..."@
    } else {
        "..."@
    }
}

/// A text that was cut is no longer than the limit, or than the three dots
/// where the limit is less than that; a text within the limit is not cut.
pub proof fn lemma_truncated_is_short(s: Seq<char>, max_len: nat)
    ensures
        truncated(s, max_len).len() <= if max_len >= 3 {
            max_len
        } else {
            3
        },
        s.len() <= max_len ==> truncated(s, max_len) == s,
{
    reveal_strlit("...");
}

/// Cuts `s` to at most `max_len` characters, with three dots at the end of
/// a text that was cut.
pub fn truncate(s: &str, max_len: usize) -> (out: String)
    ensures
        out@ == truncated(s@, max_len as nat),
{
    let chars = chars_of(s);
    if chars.len() <= max_len {
        string_of(&chars)
    } else {
        let keep: usize = if max_len >= 3 {
            max_len - 3
        } else {
            0
        };
        let mut out = string_of_range(&chars, 0, keep);
        push_text(&mut out, "...");
        assert(chars@.subrange(0, 0) + "..."@ =~= "..."@);
        out
    }
}

/// The results of the two variants on one task.
#[derive(Debug, Clone)]
pub struct TaskComparison {
    pub task_id: String,
    pub task_name: String,
    /// The result of the baseline variant.
    pub control: RunResult,
    /// The result of the augmented variant.
    pub fmm: RunResult,
    /// The scores of the baseline variant, where the run was scored.
    pub control_eval: Option<EvalScores>,
    /// The scores of the augmented variant, where the run was scored.
    pub fmm_eval: Option<EvalScores>,
}

/// The totals of one variant over the tasks of a job. Each stops at the
/// largest number of its type.
#[derive(Debug, Clone, Copy, PartialEq, Eq, Structural)]
pub struct AggregateMetrics {
    pub total_tool_calls: u32,
    pub total_read_calls: u32,
    pub total_input_tokens: u64,
    pub total_output_tokens: u64,
    pub total_duration_ms: u64,
}

/// The counts of a comparison.
#[derive(Debug, Clone, Copy, PartialEq, Eq, Structural)]
pub struct ComparisonSummary {
    /// The tasks that were run.
    pub tasks_run: u32,
    /// The tasks on which the augmented variant made fewer tool calls.
    pub fmm_wins: u32,
    /// The tasks on which the baseline variant made fewer tool calls.
    pub control_wins: u32,
    /// The tasks on which both made the same number of tool calls.
    pub ties: u32,
    pub control_totals: AggregateMetrics,
    pub fmm_totals: AggregateMetrics,
}

/// The number of the results that satisfy `wanted`.
pub open spec fn count_of(
    results: Seq<TaskComparison>,
    wanted: spec_fn(TaskComparison) -> bool,
) -> nat
    decreases results.len(),
{
    if results.len() == 0 {
        0
    } else {
        count_of(results.drop_last(), wanted) + if wanted(results.last()) {
            1nat
        } else {
            0nat
        }
    }
}

/// The sum of `amount` over the results.
pub open spec fn sum_of(results: Seq<TaskComparison>, amount: spec_fn(TaskComparison) -> nat) -> nat
    decreases results.len(),
{
    if results.len() == 0 {
        0
    } else {
        sum_of(results.drop_last(), amount) + amount(results.last())
    }
}

/// `n`, or the largest `u32` where `n` is larger.
pub open spec fn clip32(n: nat) -> u32 {
    if n <= u32::MAX {
        n as u32
    } else {
        u32::MAX
    }
}

/// `n`, or the largest `u64` where `n` is larger.
pub open spec fn clip64(n: nat) -> u64 {
    if n <= u64::MAX {
        n as u64
    } else {
        u64::MAX
    }
}

/// The augmented variant made fewer tool calls.
pub open spec fn fmm_won(t: TaskComparison) -> bool {
    t.control.tool_calls > t.fmm.tool_calls
}

/// The baseline variant made fewer tool calls.
pub open spec fn control_won(t: TaskComparison) -> bool {
    t.control.tool_calls < t.fmm.tool_calls
}

/// Both variants made the same number of tool calls.
pub open spec fn tied(t: TaskComparison) -> bool {
    t.control.tool_calls == t.fmm.tool_calls
}

/// The totals of the baseline variant.
pub open spec fn control_totals_of(results: Seq<TaskComparison>) -> AggregateMetrics {
    AggregateMetrics {
        total_tool_calls: clip32(sum_of(results, |t: TaskComparison| t.control.tool_calls as nat)),
        total_read_calls: clip32(sum_of(results, |t: TaskComparison| t.control.read_calls as nat)),
        total_input_tokens: clip64(
            sum_of(results, |t: TaskComparison| t.control.input_tokens as nat),
        ),
        total_output_tokens: clip64(
            sum_of(results, |t: TaskComparison| t.control.output_tokens as nat),
        ),
        total_duration_ms: clip64(sum_of(results, |t: TaskComparison| t.control.duration_ms as nat)),
    }
}

/// The totals of the augmented variant.
pub open spec fn fmm_totals_of(results: Seq<TaskComparison>) -> AggregateMetrics {
    AggregateMetrics {
        total_tool_calls: clip32(sum_of(results, |t: TaskComparison| t.fmm.tool_calls as nat)),
        total_read_calls: clip32(sum_of(results, |t: TaskComparison| t.fmm.read_calls as nat)),
        total_input_tokens: clip64(sum_of(results, |t: TaskComparison| t.fmm.input_tokens as nat)),
        total_output_tokens: clip64(
            sum_of(results, |t: TaskComparison| t.fmm.output_tokens as nat),
        ),
        total_duration_ms: clip64(sum_of(results, |t: TaskComparison| t.fmm.duration_ms as nat)),
    }
}

/// The counts of the comparison over `results`. A task goes to the variant
/// that made fewer tool calls.
pub open spec fn summary_of(results: Seq<TaskComparison>) -> ComparisonSummary {
    ComparisonSummary {
        tasks_run: clip32(results.len()),
        fmm_wins: clip32(count_of(results, |t: TaskComparison| fmm_won(t))),
        control_wins: clip32(count_of(results, |t: TaskComparison| control_won(t))),
        ties: clip32(count_of(results, |t: TaskComparison| tied(t))),
        control_totals: control_totals_of(results),
        fmm_totals: fmm_totals_of(results),
    }
}

/// Every task is won by one variant or tied: the three counts add up to
/// the number of tasks.
pub proof fn lemma_every_task_counted(results: Seq<TaskComparison>)
    ensures
        count_of(results, |t: TaskComparison| fmm_won(t)) + count_of(
            results,
            |t: TaskComparison| control_won(t),
        ) + count_of(results, |t: TaskComparison| tied(t)) == results.len(),
    decreases results.len(),
{
    if results.len() > 0 {
        lemma_every_task_counted(results.drop_last());
    }
}

/// The totals of one more result.
fn add_totals(totals: AggregateMetrics, result: &RunResult) -> (sum: AggregateMetrics)
    ensures
        sum.total_tool_calls == totals.total_tool_calls.saturating_add(result.tool_calls),
        sum.total_read_calls == totals.total_read_calls.saturating_add(result.read_calls),
        sum.total_input_tokens == totals.total_input_tokens.saturating_add(result.input_tokens),
        sum.total_output_tokens == totals.total_output_tokens.saturating_add(
            result.output_tokens,
        ),
        sum.total_duration_ms == totals.total_duration_ms.saturating_add(result.duration_ms),
{
    AggregateMetrics {
        total_tool_calls: totals.total_tool_calls.saturating_add(result.tool_calls),
        total_read_calls: totals.total_read_calls.saturating_add(result.read_calls),
        total_input_tokens: totals.total_input_tokens.saturating_add(result.input_tokens),
        total_output_tokens: totals.total_output_tokens.saturating_add(result.output_tokens),
        total_duration_ms: totals.total_duration_ms.saturating_add(result.duration_ms),
    }
}

/// Counts the wins and sums the totals of a comparison.
pub fn calculate_summary(task_results: &Vec<TaskComparison>) -> (summary: ComparisonSummary)
    ensures
        summary == summary_of(task_results@),
{
    let zero = AggregateMetrics {
        total_tool_calls: 0,
        total_read_calls: 0,
        total_input_tokens: 0,
        total_output_tokens: 0,
        total_duration_ms: 0,
    };
    let mut summary = ComparisonSummary {
        tasks_run: 0,
        fmm_wins: 0,
        control_wins: 0,
        ties: 0,
        control_totals: zero,
        fmm_totals: zero,
    };
    let mut i: usize = 0;
    assert(task_results@.take(0) =~= Seq::empty());
    while i < task_results.len()
        invariant
            0 <= i <= task_results.len(),
            summary == summary_of(task_results@.take(i as int)),
        decreases task_results.len() - i,
    {
        assert(task_results@.take(i + 1).drop_last() =~= task_results@.take(i as int));
        let t = &task_results[i];
        let fmm_won = t.control.tool_calls > t.fmm.tool_calls;
        let control_won = t.control.tool_calls < t.fmm.tool_calls;
        summary = ComparisonSummary {
            tasks_run: summary.tasks_run.saturating_add(1),
            fmm_wins: if fmm_won {
                summary.fmm_wins.saturating_add(1)
            } else {
                summary.fmm_wins
            },
            control_wins: if control_won {
                summary.control_wins.saturating_add(1)
            } else {
                summary.control_wins
            },
            ties: if !fmm_won && !control_won {
                summary.ties.saturating_add(1)
            } else {
                summary.ties
            },
            control_totals: add_totals(summary.control_totals, &t.control),
            fmm_totals: add_totals(summary.fmm_totals, &t.fmm),
        };
        i += 1;
    }
    assert(task_results@.take(i as int) =~= task_results@);
    summary
}

/// The comparison of the two variants over the tasks of one job.
#[derive(Debug, Clone)]
pub struct ComparisonReport {
    pub job_id: String,
    pub repo_url: String,
    pub commit_sha: String,
    pub branch: String,
    /// When the report was made, as RFC 3339 text.
    pub timestamp: String,
    pub task_results: Vec<TaskComparison>,
    pub summary: ComparisonSummary,
}

/// The results of one task under both variants, with the scores of each
/// where the runs were scored.
#[derive(Debug, Clone)]
pub struct TaskRun {
    pub task: Task,
    pub control: RunResult,
    pub fmm: RunResult,
    pub control_eval: Option<EvalScores>,
    pub fmm_eval: Option<EvalScores>,
}

/// The comparison that a task run gives.
pub open spec fn comparison_of(run: TaskRun) -> TaskComparison {
    TaskComparison {
        task_id: run.task.id,
        task_name: run.task.name,
        control: run.control,
        fmm: run.fmm,
        control_eval: run.control_eval,
        fmm_eval: run.fmm_eval,
    }
}

impl ComparisonReport {
    /// The report of the job `job_id` over the task runs `results`, made at
    /// `timestamp`.
    pub fn new(
        job_id: String,
        repo_url: String,
        commit_sha: String,
        branch: String,
        timestamp: String,
        results: Vec<TaskRun>,
    ) -> (report: ComparisonReport)
        ensures
            report.job_id == job_id,
            report.repo_url == repo_url,
            report.commit_sha == commit_sha,
            report.branch == branch,
            report.timestamp == timestamp,
            report.task_results@ == results@.map_values(|run: TaskRun| comparison_of(run)),
            report.summary == summary_of(report.task_results@),
    {
        let mut task_results: Vec<TaskComparison> = Vec::new();
        let mut rest = results;
        let ghost all = results@;
        let ghost mut done: int = 0;
        while rest.len() > 0
            invariant
                0 <= done <= all.len(),
                rest@ == all.skip(done),
                task_results@ == all.take(done).map_values(|run: TaskRun| comparison_of(run)),
            decreases rest.len(),
        {
            let run = rest.remove(0);
            assert(run == all[done]);
            task_results.push(
                TaskComparison {
                    task_id: run.task.id,
                    task_name: run.task.name,
                    control: run.control,
                    fmm: run.fmm,
                    control_eval: run.control_eval,
                    fmm_eval: run.fmm_eval,
                },
            );
            proof {
                assert(rest@ =~= all.skip(done + 1));
                assert(task_results@ =~= all.take(done + 1).map_values(
                    |run: TaskRun| comparison_of(run),
                ));
                done = done + 1;
            }
        }
        assert(all.take(done) =~= all);
        let summary = calculate_summary(&task_results);
        ComparisonReport {
            job_id,
            repo_url,
            commit_sha,
            branch,
            timestamp,
            task_results,
            summary,
        }
    }
}

/// The figures of a comparison, as text. The caller draws them from the
/// results and writes each in the form in which it is to be shown.
#[derive(Debug, Clone)]
pub struct ReportFigures {
    /// The reduction of tool calls, in percent.
    pub tool_calls_reduction: String,
    pub read_calls_reduction: String,
    pub cost_reduction: String,
    pub duration_reduction: String,
    /// The total cost of the baseline variant, in dollars.
    pub control_cost: String,
    pub fmm_cost: String,
    /// The share of tasks that the augmented variant won, in percent.
    pub win_percentage: String,
    /// The cost of the baseline variant on each task, in dollars.
    pub task_control_cost: Vec<String>,
    pub task_fmm_cost: Vec<String>,
}

/// The text at index `at`; a dash where the list has none.
pub open spec fn cell_at(list: Seq<Seq<char>>, at: int) -> Seq<char> {
    if 0 <= at < list.len() {
        list[at]
    } else {
        "-"@
    }
}

/// The head of a rendered comparison.
pub open spec fn head_text(
    repo_url: Seq<char>,
    job_id: Seq<char>,
    commit_sha: Seq<char>,
    branch: Seq<char>,
    timestamp: Seq<char>,
) -> Seq<char> {
    "# FMM Comparison Report: "@ + repo_url + "\n\n"@ + "**Job ID:** "@ + job_id + "\n"@
        + "**Commit:** "@ + commit_sha + "\n"@ + "**Branch:** "@ + branch + "\n"@
        + "**Timestamp:** "@ + timestamp + "\n\n"@
}

/// A line of a table with the columns `a`, `b` and `c`.
pub open spec fn row3(a: Seq<char>, b: Seq<char>, c: Seq<char>) -> Seq<char> {
    "| "@ + a + " | "@ + b + " | "@ + c + " |\n"@
}

/// A line of a table with the columns `a`, `b`, `c` and `d`.
pub open spec fn row4(a: Seq<char>, b: Seq<char>, c: Seq<char>, d: Seq<char>) -> Seq<char> {
    "| "@ + a + " | "@ + b + " | "@ + c + " | "@ + d + " |\n"@
}

/// The summary of a rendered comparison: the table of totals and the line
/// of wins.
pub open spec fn summary_text(
    summary: ComparisonSummary,
    tool_calls_reduction: Seq<char>,
    read_calls_reduction: Seq<char>,
    cost_reduction: Seq<char>,
    duration_reduction: Seq<char>,
    control_cost: Seq<char>,
    fmm_cost: Seq<char>,
    win_percentage: Seq<char>,
) -> Seq<char> {
    "## Summary\n\n"@ + "| Metric | Control | FMM | Reduction |\n"@
        + "|--------|---------|-----|----------|\n"@ + row4(
        "Tool Calls"@,
        decimal(summary.control_totals.total_tool_calls as nat),
        decimal(summary.fmm_totals.total_tool_calls as nat),
        tool_calls_reduction + "%"@,
    ) + row4(
        "Read Calls"@,
        decimal(summary.control_totals.total_read_calls as nat),
        decimal(summary.fmm_totals.total_read_calls as nat),
        read_calls_reduction + "%"@,
    ) + row4("Cost (USD)"@, "$"@ + control_cost, "$"@ + fmm_cost, cost_reduction + "%"@) + row4(
        "Duration (ms)"@,
        decimal(summary.control_totals.total_duration_ms as nat),
        decimal(summary.fmm_totals.total_duration_ms as nat),
        duration_reduction + "%"@,
    ) + "\n"@ + "**FMM Wins:** "@ + decimal(summary.fmm_wins as nat) + " / "@ + decimal(
        summary.tasks_run as nat,
    ) + " tasks ("@ + win_percentage + "%)\n\n"@
}

/// The lines that list the first `n` tools and their counts.
pub open spec fn tool_lines(tools: Seq<(Seq<char>, u32)>, n: int) -> Seq<char>
    decreases n,
{
    if n <= 0 {
        Seq::empty()
    } else {
        tool_lines(tools, n - 1) + "- "@ + tools[n - 1].0 + ": "@ + decimal(tools[n - 1].1 as nat)
            + "\n"@
    }
}

/// The list of the tools one variant used, under `heading`; nothing where
/// it used none.
pub open spec fn tools_text(heading: Seq<char>, tools: Seq<(Seq<char>, u32)>) -> Seq<char> {
    if tools.len() == 0 {
        Seq::empty()
    } else {
        heading + tool_lines(tools, tools.len() as int) + "\n"@
    }
}

/// The section of one task in a rendered comparison.
pub open spec fn task_text(t: TaskComparison, control_cost: Seq<char>, fmm_cost: Seq<char>) -> Seq<
    char,
> {
    "### "@ + t.task_name@ + "\n\n"@ + "| Metric | Control | FMM |\n"@
        + "|--------|---------|-----|\n"@ + row3(
        "Tool Calls"@,
        decimal(t.control.tool_calls as nat),
        decimal(t.fmm.tool_calls as nat),
    ) + row3(
        "Read Calls"@,
        decimal(t.control.read_calls as nat),
        decimal(t.fmm.read_calls as nat),
    ) + row3("Cost"@, "$"@ + control_cost, "$"@ + fmm_cost) + row3(
        "Duration"@,
        decimal(t.control.duration_ms as nat) + "ms"@,
        decimal(t.fmm.duration_ms as nat) + "ms"@,
    ) + "\n"@ + tools_text("**Control Tools Used:**\n"@, counts(t.control.tools_by_name@))
        + tools_text("**FMM Tools Used:**\n"@, counts(t.fmm.tools_by_name@))
}

/// The sections of the first `n` tasks.
pub open spec fn tasks_text(
    tasks: Seq<TaskComparison>,
    control_costs: Seq<Seq<char>>,
    fmm_costs: Seq<Seq<char>>,
    n: int,
) -> Seq<char>
    decreases n,
{
    if n <= 0 {
        Seq::empty()
    } else {
        tasks_text(tasks, control_costs, fmm_costs, n - 1) + task_text(
            tasks[n - 1],
            cell_at(control_costs, n - 1),
            cell_at(fmm_costs, n - 1),
        )
    }
}

/// `n` in base ten.
fn number(n: u64) -> (out: String)
    ensures
        out@ == decimal(n as nat),
{
    let mut out = String::new();
    push_decimal(&mut out, n);
    assert(out@ =~= decimal(n as nat));
    out
}

/// Appends a line of a table with three columns.
fn push_row3(out: &mut String, a: &str, b: &str, c: &str)
    ensures
        final(out)@ == old(out)@ + row3(a@, b@, c@),
{
    let mut row = String::from_str("| ");
    push_text(&mut row, a);
    push_text(&mut row, " | ");
    push_text(&mut row, b);
    push_text(&mut row, " | ");
    push_text(&mut row, c);
    push_text(&mut row, " |\n");
    push_text(out, row.as_str());
}

/// Appends a line of a table with four columns.
fn push_row4(out: &mut String, a: &str, b: &str, c: &str, d: &str)
    ensures
        final(out)@ == old(out)@ + row4(a@, b@, c@, d@),
{
    let mut row = String::from_str("| ");
    push_text(&mut row, a);
    push_text(&mut row, " | ");
    push_text(&mut row, b);
    push_text(&mut row, " | ");
    push_text(&mut row, c);
    push_text(&mut row, " | ");
    push_text(&mut row, d);
    push_text(&mut row, " |\n");
    push_text(out, row.as_str());
}

/// `a` followed by `b`.
fn concat(a: &str, b: &str) -> (out: String)
    ensures
        out@ == a@ + b@,
{
    let mut out = String::from_str(a);
    push_text(&mut out, b);
    out
}

/// Appends the list of the tools one variant used.
fn push_tools(out: &mut String, heading: &str, tools: &Vec<ToolCount>)
    ensures
        final(out)@ == old(out)@ + tools_text(heading@, counts(tools@)),
{
    if tools.len() == 0 {
        assert(old(out)@ + Seq::<char>::empty() =~= old(out)@);
        return;
    }
    let ghost list = counts(tools@);
    let mut lines = String::new();
    let mut i: usize = 0;
    while i < tools.len()
        invariant
            0 <= i <= tools.len(),
            list == counts(tools@),
            lines@ == tool_lines(list, i as int),
        decreases tools.len() - i,
    {
        assert(list[i as int] == tools@[i as int]@);
        let ghost before = lines@;
        push_text(&mut lines, "- ");
        push_text(&mut lines, tools[i].name.as_str());
        push_text(&mut lines, ": ");
        let count = number(tools[i].count as u64);
        push_text(&mut lines, count.as_str());
        push_text(&mut lines, "\n");
        i += 1;
    }
    push_text(out, heading);
    push_text(out, lines.as_str());
    push_text(out, "\n");
    assert(out@ =~= old(out)@ + (heading@ + tool_lines(list, tools.len() as int) + "\n"@));
}

/// Appends the section of one task.
fn push_task(out: &mut String, t: &TaskComparison, control_cost: &str, fmm_cost: &str)
    ensures
        final(out)@ == old(out)@ + task_text(*t, control_cost@, fmm_cost@),
{
    let mut section = String::from_str("### ");
    push_text(&mut section, t.task_name.as_str());
    push_text(&mut section, "\n\n");
    push_text(&mut section, "| Metric | Control | FMM |\n");
    push_text(&mut section, "|--------|---------|-----|\n");
    push_row3(
        &mut section,
        "Tool Calls",
        number(t.control.tool_calls as u64).as_str(),
        number(t.fmm.tool_calls as u64).as_str(),
    );
    push_row3(
        &mut section,
        "Read Calls",
        number(t.control.read_calls as u64).as_str(),
        number(t.fmm.read_calls as u64).as_str(),
    );
    push_row3(
        &mut section,
        "Cost",
        concat("$", control_cost).as_str(),
        concat("$", fmm_cost).as_str(),
    );
    push_row3(
        &mut section,
        "Duration",
        concat(number(t.control.duration_ms).as_str(), "ms").as_str(),
        concat(number(t.fmm.duration_ms).as_str(), "ms").as_str(),
    );
    push_text(&mut section, "\n");
    push_tools(&mut section, "**Control Tools Used:**\n", &t.control.tools_by_name);
    push_tools(&mut section, "**FMM Tools Used:**\n", &t.fmm.tools_by_name);
    push_text(out, section.as_str());
}

impl ComparisonReport {
    /// The report as it is rendered with the figures `figures`.
    pub open spec fn markdown(&self, figures: ReportFigures) -> Seq<char> {
        head_text(self.repo_url@, self.job_id@, self.commit_sha@, self.branch@, self.timestamp@)
            + summary_text(
            self.summary,
            figures.tool_calls_reduction@,
            figures.read_calls_reduction@,
            figures.cost_reduction@,
            figures.duration_reduction@,
            figures.control_cost@,
            figures.fmm_cost@,
            figures.win_percentage@,
        ) + "## Task Details\n\n"@ + tasks_text(
            self.task_results@,
            texts(figures.task_control_cost@),
            texts(figures.task_fmm_cost@),
            self.task_results@.len() as int,
        )
    }

    /// Renders the report: its head, the table of totals, the line of
    /// wins, and one section per task with the counts of the task and the
    /// tools each variant used. A report without tasks renders to the head
    /// and the summary. A task for which `figures` has no cost is shown
    /// with a dash.
    pub fn to_markdown(&self, figures: &ReportFigures) -> (md: String)
        ensures
            md@ == self.markdown(*figures),
    {
        let mut md = String::from_str("# FMM Comparison Report: ");
        push_text(&mut md, self.repo_url.as_str());
        push_text(&mut md, "\n\n");
        push_text(&mut md, "**Job ID:** ");
        push_text(&mut md, self.job_id.as_str());
        push_text(&mut md, "\n");
        push_text(&mut md, "**Commit:** ");
        push_text(&mut md, self.commit_sha.as_str());
        push_text(&mut md, "\n");
        push_text(&mut md, "**Branch:** ");
        push_text(&mut md, self.branch.as_str());
        push_text(&mut md, "\n");
        push_text(&mut md, "**Timestamp:** ");
        push_text(&mut md, self.timestamp.as_str());
        push_text(&mut md, "\n\n");

        let s = &self.summary;
        let mut summary = String::from_str("## Summary\n\n");
        push_text(&mut summary, "| Metric | Control | FMM | Reduction |\n");
        push_text(&mut summary, "|--------|---------|-----|----------|\n");
        push_row4(
            &mut summary,
            "Tool Calls",
            number(s.control_totals.total_tool_calls as u64).as_str(),
            number(s.fmm_totals.total_tool_calls as u64).as_str(),
            concat(figures.tool_calls_reduction.as_str(), "%").as_str(),
        );
        push_row4(
            &mut summary,
            "Read Calls",
            number(s.control_totals.total_read_calls as u64).as_str(),
            number(s.fmm_totals.total_read_calls as u64).as_str(),
            concat(figures.read_calls_reduction.as_str(), "%").as_str(),
        );
        push_row4(
            &mut summary,
            "Cost (USD)",
            concat("$", figures.control_cost.as_str()).as_str(),
            concat("$", figures.fmm_cost.as_str()).as_str(),
            concat(figures.cost_reduction.as_str(), "%").as_str(),
        );
        push_row4(
            &mut summary,
            "Duration (ms)",
            number(s.control_totals.total_duration_ms).as_str(),
            number(s.fmm_totals.total_duration_ms).as_str(),
            concat(figures.duration_reduction.as_str(), "%").as_str(),
        );
        push_text(&mut summary, "\n");
        push_text(&mut summary, "**FMM Wins:** ");
        push_text(&mut summary, number(s.fmm_wins as u64).as_str());
        push_text(&mut summary, " / ");
        push_text(&mut summary, number(s.tasks_run as u64).as_str());
        push_text(&mut summary, " tasks (");
        push_text(&mut summary, figures.win_percentage.as_str());
        push_text(&mut summary, "%)\n\n");
        push_text(&mut md, summary.as_str());
        push_text(&mut md, "## Task Details\n\n");

        let ghost control_costs = texts(figures.task_control_cost@);
        let ghost fmm_costs = texts(figures.task_fmm_cost@);
        let mut sections = String::new();
        let mut i: usize = 0;
        while i < self.task_results.len()
            invariant
                0 <= i <= self.task_results.len(),
                control_costs == texts(figures.task_control_cost@),
                fmm_costs == texts(figures.task_fmm_cost@),
                sections@ == tasks_text(self.task_results@, control_costs, fmm_costs, i as int),
            decreases self.task_results.len() - i,
        {
            let control_cost: &str = if i < figures.task_control_cost.len() {
                assert(control_costs[i as int] == figures.task_control_cost@[i as int]@);
                figures.task_control_cost[i].as_str()
            } else {
                "-"
            };
            let fmm_cost: &str = if i < figures.task_fmm_cost.len() {
                assert(fmm_costs[i as int] == figures.task_fmm_cost@[i as int]@);
                figures.task_fmm_cost[i].as_str()
            } else {
                "-"
            };
            push_task(&mut sections, &self.task_results[i], control_cost, fmm_cost);
            i += 1;
        }
        push_text(&mut md, sections.as_str());
        md
    }
}

} // verus!
