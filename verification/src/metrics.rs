//! Run metrics, and the parser that reads them off a transcript.
//!
//! A transcript is a run of lines, each a JSON event. The parser folds the
//! events into a [`Tally`], one event at a time, and derives the metrics of
//! the run from the final tally. The fold is stated as spec functions over
//! [`Progress`], the mathematical view of a tally; every executable step is
//! proved to compute the matching spec step.
//!
//! What is counted per tool name, and the sets of paths, are kept in
//! vectors in the order of first use. `vstd` states what a hash map or a
//! hash set holds only for keys whose hashing it models, and strings are
//! not among them; so each of these is a vector with the invariant that no
//! name or path stands in it twice, which is proved of every state of the
//! parser.

use crate::json::{
    decode, flag_at, flag_member, json_of, real_at, real_member, text_at, text_member,
    unsigned_at, unsigned_member, Json,
};
use crate::text::{
    chars_of, ends_with, has_prefix, has_suffix, is_blank, blank, lines, lines_of, push_text,
    starts_with, string_of_range, text_eq, texts,
};
use vstd::prelude::*;

verus! {

/// How often one tool was called, and the argument captured from each call
/// that had one: a file path, a search pattern or a command.
#[derive(Debug, Clone)]
pub struct ToolDetail {
    pub count: u32,
    pub args: Vec<String>,
}

/// The calls of one tool, under the tool's name.
#[derive(Debug, Clone)]
pub struct ToolRecord {
    pub name: String,
    pub detail: ToolDetail,
}

/// How often one tool was called.
#[derive(Debug, Clone)]
pub struct ToolCount {
    pub name: String,
    pub count: u32,
}

/// The view of a [`ToolRecord`].
pub struct ToolStat {
    pub name: Seq<char>,
    pub count: u32,
    pub args: Seq<Seq<char>>,
}

impl View for ToolRecord {
    type V = ToolStat;

    open spec fn view(&self) -> ToolStat {
        ToolStat { name: self.name@, count: self.detail.count, args: texts(self.detail.args@) }
    }
}

impl View for ToolCount {
    type V = (Seq<char>, u32);

    open spec fn view(&self) -> (Seq<char>, u32) {
        (self.name@, self.count)
    }
}

/// How a run split into looking and changing.
#[derive(Debug, Clone, Copy, PartialEq, Eq, Structural)]
pub struct NavigationMetrics {
    /// Distinct files read.
    pub unique_files_read: u32,
    /// Distinct files edited or written.
    pub unique_files_edited: u32,
    /// The turn of the first edit or write; 0 where there was none.
    pub first_edit_turn: u32,
    /// Turns before the first edit.
    pub exploration_turns: u32,
    /// Turns from the first edit on.
    pub implementation_turns: u32,
}

/// Use of sidecar files and of the integration tools.
#[derive(Debug, Clone)]
pub struct FmmUsage {
    /// Reads of a sidecar file.
    pub sidecars_read: u32,
    /// Calls of an integration tool.
    pub mcp_tool_calls: u32,
    /// The name of the tool of each such call, in order.
    pub fmm_tool_names: Vec<String>,
}

/// The view of a [`FmmUsage`].
pub struct FmmUsageView {
    pub sidecars_read: u32,
    pub mcp_tool_calls: u32,
    pub fmm_tool_names: Seq<Seq<char>>,
}

impl View for FmmUsage {
    type V = FmmUsageView;

    open spec fn view(&self) -> FmmUsageView {
        FmmUsageView {
            sidecars_read: self.sidecars_read,
            mcp_tool_calls: self.mcp_tool_calls,
            fmm_tool_names: texts(self.fmm_tool_names@),
        }
    }
}

/// The metrics of one run.
#[derive(Debug, Clone)]
pub struct RunMetrics {
    pub input_tokens: u64,
    pub output_tokens: u64,
    pub cache_read_tokens: u64,
    pub cache_creation_tokens: u64,
    /// The cost in dollars, as the bit pattern of a double.
    pub cost_usd_bits: u64,
    pub turns: u32,
    pub duration_ms: u64,
    pub tool_calls: u32,
    /// Calls per tool, in the order in which the tools were first called. No
    /// name occurs twice.
    pub tools_by_name: Vec<ToolCount>,
    pub files_accessed: Vec<String>,
    pub read_calls: u32,
    pub success: bool,
    pub error: Option<String>,
    /// Calls and arguments per tool, in the same order as `tools_by_name`.
    pub tool_details: Vec<ToolRecord>,
    pub navigation: NavigationMetrics,
    pub fmm_usage: FmmUsage,
}

/// The view of a [`RunMetrics`].
pub struct RunMetricsView {
    pub input_tokens: u64,
    pub output_tokens: u64,
    pub cache_read_tokens: u64,
    pub cache_creation_tokens: u64,
    pub cost_usd_bits: u64,
    pub turns: u32,
    pub duration_ms: u64,
    pub tool_calls: u32,
    pub tools_by_name: Seq<(Seq<char>, u32)>,
    pub files_accessed: Seq<Seq<char>>,
    pub read_calls: u32,
    pub success: bool,
    pub error: Option<Seq<char>>,
    pub tool_details: Seq<ToolStat>,
    pub navigation: NavigationMetrics,
    pub fmm_usage: FmmUsageView,
}

/// The view of an optional string.
pub open spec fn opt_text(s: Option<String>) -> Option<Seq<char>> {
    match s {
        Some(s) => Some(s@),
        None => None,
    }
}

/// The views of a list of tool records.
pub open spec fn stats(records: Seq<ToolRecord>) -> Seq<ToolStat> {
    records.map_values(|r: ToolRecord| r@)
}

/// The views of a list of tool counts.
pub open spec fn counts(list: Seq<ToolCount>) -> Seq<(Seq<char>, u32)> {
    list.map_values(|c: ToolCount| c@)
}

impl View for RunMetrics {
    type V = RunMetricsView;

    open spec fn view(&self) -> RunMetricsView {
        RunMetricsView {
            input_tokens: self.input_tokens,
            output_tokens: self.output_tokens,
            cache_read_tokens: self.cache_read_tokens,
            cache_creation_tokens: self.cache_creation_tokens,
            cost_usd_bits: self.cost_usd_bits,
            turns: self.turns,
            duration_ms: self.duration_ms,
            tool_calls: self.tool_calls,
            tools_by_name: counts(self.tools_by_name@),
            files_accessed: texts(self.files_accessed@),
            read_calls: self.read_calls,
            success: self.success,
            error: opt_text(self.error),
            tool_details: stats(self.tool_details@),
            navigation: self.navigation,
            fmm_usage: self.fmm_usage@,
        }
    }
}

/// No tool has two entries.
pub open spec fn distinct_names(tools: Seq<ToolStat>) -> bool {
    forall|i: int, j: int|
        0 <= i < j < tools.len() ==> (#[trigger] tools[i]).name != (#[trigger] tools[j]).name
}

/// The name and count of each tool.
pub open spec fn counts_of(tools: Seq<ToolStat>) -> Seq<(Seq<char>, u32)> {
    tools.map_values(|t: ToolStat| (t.name, t.count))
}

/// Metrics whose two lists of tools agree: each tool is named once, and
/// `tools_by_name` holds the name and the count of each entry of
/// `tool_details`, in the same order.
pub open spec fn coherent(m: RunMetricsView) -> bool {
    &&& distinct_names(m.tool_details)
    &&& m.tools_by_name == counts_of(m.tool_details)
}

impl RunMetrics {
    /// The two lists of tools agree, and each tool is named once.
    pub open spec fn wf(&self) -> bool {
        coherent(self@)
    }
}

/// What the parser returns: the metrics of the run and the text of its
/// final response.
#[derive(Debug, Clone)]
pub struct ParsedOutput {
    pub metrics: RunMetrics,
    pub response_text: String,
}

/// The view of a [`ParsedOutput`].
pub struct ParsedOutputView {
    pub metrics: RunMetricsView,
    pub response_text: Seq<char>,
}

impl View for ParsedOutput {
    type V = ParsedOutputView;

    open spec fn view(&self) -> ParsedOutputView {
        ParsedOutputView { metrics: self.metrics@, response_text: self.response_text@ }
    }
}

/// One more, stopping at the largest `u32`.
pub open spec fn inc(x: u32) -> u32 {
    if x < u32::MAX {
        (x + 1) as u32
    } else {
        x
    }
}

/// One more, stopping at the largest `u32`.
pub fn bump(x: u32) -> (r: u32)
    ensures
        r == inc(x),
{
    if x < u32::MAX {
        x + 1
    } else {
        x
    }
}

/// The state of the fold over a transcript's events.
pub struct Progress {
    /// Assistant events seen so far.
    pub turn: u32,
    /// The turn of the first edit or write; 0 while there was none.
    pub first_edit_turn: u32,
    pub tool_calls: u32,
    pub read_calls: u32,
    /// One entry per tool name, in the order of first use.
    pub tools: Seq<ToolStat>,
    /// The path of every read, in order, repeats included.
    pub files_accessed: Seq<Seq<char>>,
    /// The distinct paths read, in the order of first use.
    pub files_read: Seq<Seq<char>>,
    /// The distinct paths edited or written, in the order of first use.
    pub files_edited: Seq<Seq<char>>,
    pub sidecars_read: u32,
    pub mcp_tool_calls: u32,
    pub fmm_tool_names: Seq<Seq<char>>,
    /// The most recent response text.
    pub response: Seq<char>,
    /// Whether a text content item was seen.
    pub text_seen: bool,
    pub input_tokens: u64,
    pub output_tokens: u64,
    pub cache_read_tokens: u64,
    pub cache_creation_tokens: u64,
    pub cost_usd_bits: u64,
    pub turns: u32,
    pub duration_ms: u64,
    /// The error flag of the last result event, where it had one.
    pub is_error: Option<bool>,
    /// The error subtype of the last result event, where it had one.
    pub subtype: Option<Seq<char>>,
}

/// The state before any event.
pub open spec fn start() -> Progress {
    Progress {
        turn: 0,
        first_edit_turn: 0,
        tool_calls: 0,
        read_calls: 0,
        tools: Seq::empty(),
        files_accessed: Seq::empty(),
        files_read: Seq::empty(),
        files_edited: Seq::empty(),
        sidecars_read: 0,
        mcp_tool_calls: 0,
        fmm_tool_names: Seq::empty(),
        response: Seq::empty(),
        text_seen: false,
        input_tokens: 0,
        output_tokens: 0,
        cache_read_tokens: 0,
        cache_creation_tokens: 0,
        cost_usd_bits: 0,
        turns: 0,
        duration_ms: 0,
        is_error: None,
        subtype: None,
    }
}

/// A tool that reads a file.
pub open spec fn is_read_tool(name: Seq<char>) -> bool {
    name == "Read"@ || name == "View"@
}

/// A tool that changes a file.
pub open spec fn is_edit_tool(name: Seq<char>) -> bool {
    name == "Edit"@ || name == "Write"@
}

/// A tool that searches by pattern.
pub open spec fn is_search_tool(name: Seq<char>) -> bool {
    name == "Glob"@ || name == "Grep"@
}

/// The tool that runs a shell command.
pub open spec fn is_shell_tool(name: Seq<char>) -> bool {
    name == "Bash"@
}

/// A tool of the integration, told by the prefix of its name.
pub open spec fn is_integration_tool(name: Seq<char>) -> bool {
    has_prefix(name, "fmm_"@) || has_prefix(name, "mcp__fmm"@)
}

/// A path that names a sidecar file.
pub open spec fn is_sidecar_path(path: Seq<char>) -> bool {
    has_suffix(path, ".fmm"@)
}

/// A command as it is recorded: whole up to 200 characters, else its first
/// 197 characters and three dots.
pub open spec fn shortened(command: Seq<char>) -> Seq<char> {
    if command.len() > 200 {
        command.take(197) + "..."@
    } else {
        command
    }
}

/// A recorded command is never longer than 200 characters, and a command
/// of up to 200 characters is recorded whole.
pub proof fn lemma_shortened_is_short(command: Seq<char>)
    ensures
        shortened(command).len() <= 200,
        command.len() <= 200 ==> shortened(command) == command,
{
    reveal_strlit("...");
}

/// The path of a read: the member `file_path` where the input has one, else
/// the member `path`; `None` where the member chosen is not a string.
pub open spec fn read_path(input: Json) -> Option<Seq<char>> {
    match input.member("file_path"@) {
        Some(v) => v.text(),
        None => text_member(input, "path"@),
    }
}

/// The argument that is captured from a call of the tool `name` with the
/// given input.
pub open spec fn captured_argument(name: Seq<char>, input: Json) -> Option<Seq<char>> {
    if is_read_tool(name) {
        read_path(input)
    } else if is_edit_tool(name) {
        text_member(input, "file_path"@)
    } else if is_search_tool(name) {
        text_member(input, "pattern"@)
    } else if is_shell_tool(name) {
        match text_member(input, "command"@) {
            Some(command) => Some(shortened(command)),
            None => None,
        }
    } else {
        None
    }
}

/// The first index at or after `from` of the entry for `name`, or
/// `tools.len()`.
pub open spec fn position(tools: Seq<ToolStat>, name: Seq<char>, from: int) -> int
    decreases tools.len() - from,
{
    if from < 0 || from >= tools.len() {
        tools.len() as int
    } else if tools[from].name == name {
        from
    } else {
        position(tools, name, from + 1)
    }
}

/// `args` with `arg` added at the end, where there is one.
pub open spec fn extended(args: Seq<Seq<char>>, arg: Option<Seq<char>>) -> Seq<Seq<char>> {
    match arg {
        Some(a) => args.push(a),
        None => args,
    }
}

/// `tools` after one more call of `name`: its entry counts one more and
/// gains the argument; a name not seen before gets a new entry at the end.
pub open spec fn recorded(tools: Seq<ToolStat>, name: Seq<char>, arg: Option<Seq<char>>) -> Seq<
    ToolStat,
> {
    let at = position(tools, name, 0);
    if 0 <= at < tools.len() {
        tools.update(
            at,
            ToolStat {
                name: tools[at].name,
                count: inc(tools[at].count),
                args: extended(tools[at].args, arg),
            },
        )
    } else {
        tools.push(ToolStat { name: name, count: 1, args: extended(Seq::empty(), arg) })
    }
}

/// `paths` with `path` added at the end, unless it is there already.
pub open spec fn insert_unique(paths: Seq<Seq<char>>, path: Seq<char>) -> Seq<Seq<char>> {
    if paths.contains(path) {
        paths
    } else {
        paths.push(path)
    }
}

/// The state after a tool call that has no name: it is counted, no more.
pub open spec fn after_unnamed_call(p: Progress) -> Progress {
    Progress { tool_calls: inc(p.tool_calls), ..p }
}

/// The state after a call of the tool `name` from which `arg` was captured.
pub open spec fn after_call(p: Progress, name: Seq<char>, arg: Option<Seq<char>>) -> Progress {
    let p = Progress {
        tool_calls: inc(p.tool_calls),
        tools: recorded(p.tools, name, arg),
        ..p
    };
    if is_read_tool(name) {
        let p = Progress { read_calls: inc(p.read_calls), ..p };
        match arg {
            Some(path) => Progress {
                files_accessed: p.files_accessed.push(path),
                files_read: insert_unique(p.files_read, path),
                sidecars_read: if is_sidecar_path(path) {
                    inc(p.sidecars_read)
                } else {
                    p.sidecars_read
                },
                ..p
            },
            None => p,
        }
    } else if is_edit_tool(name) {
        Progress {
            files_edited: match arg {
                Some(path) => insert_unique(p.files_edited, path),
                None => p.files_edited,
            },
            first_edit_turn: if p.first_edit_turn == 0 {
                p.turn
            } else {
                p.first_edit_turn
            },
            ..p
        }
    } else if is_search_tool(name) || is_shell_tool(name) {
        p
    } else if is_integration_tool(name) {
        Progress {
            mcp_tool_calls: inc(p.mcp_tool_calls),
            fmm_tool_names: p.fmm_tool_names.push(name),
            ..p
        }
    } else {
        p
    }
}

/// The state after one `tool_use` content item.
pub open spec fn after_tool_use(p: Progress, item: Json) -> Progress {
    match text_member(item, "name"@) {
        None => after_unnamed_call(p),
        Some(name) => after_call(
            p,
            name,
            match item.member("input"@) {
                Some(input) => captured_argument(name, input),
                None => None,
            },
        ),
    }
}

/// The state after one content item of an assistant event. A `tool_use`
/// item is a tool call; a `text` item with a string replaces the response
/// and counts as text seen; any other item changes nothing.
pub open spec fn after_item(p: Progress, item: Json) -> Progress {
    let kind = text_member(item, "type"@);
    if kind == Some("tool_use"@) {
        after_tool_use(p, item)
    } else if kind == Some("text"@) {
        match text_member(item, "text"@) {
            Some(t) => Progress { response: t, text_seen: true, ..p },
            None => p,
        }
    } else {
        p
    }
}

/// The state after the content items `items`, in order.
pub open spec fn after_items(p: Progress, items: Seq<Json>) -> Progress
    decreases items.len(),
{
    if items.len() == 0 {
        p
    } else {
        after_item(after_items(p, items.drop_last()), items.last())
    }
}

/// The content items of an assistant event: the array `content` of its
/// member `message`, or nothing where the event has no such array.
pub open spec fn content_of(event: Json) -> Seq<Json> {
    match event.member("message"@) {
        Some(message) => match message.member("content"@) {
            Some(content) => match content.items() {
                Some(items) => items,
                None => Seq::empty(),
            },
            None => Seq::empty(),
        },
        None => Seq::empty(),
    }
}

/// The value of an optional number, 0 where there is none.
pub open spec fn or_zero(v: Option<u64>) -> u64 {
    match v {
        Some(v) => v,
        None => 0,
    }
}

/// The state after a result event. Token counts are replaced where the
/// event has a member `usage`; cost, turns and duration are always
/// replaced, by their defaults where the event lacks them; the result text
/// becomes the response only where no text content item was seen, be its
/// text empty or not.
pub open spec fn after_result(p: Progress, event: Json, fallback_ms: u64) -> Progress {
    let p = match event.member("usage"@) {
        Some(usage) => Progress {
            input_tokens: or_zero(unsigned_member(usage, "input_tokens"@)),
            output_tokens: or_zero(unsigned_member(usage, "output_tokens"@)),
            cache_read_tokens: or_zero(unsigned_member(usage, "cache_read_input_tokens"@)),
            cache_creation_tokens: or_zero(
                unsigned_member(usage, "cache_creation_input_tokens"@),
            ),
            ..p
        },
        None => p,
    };
    Progress {
        cost_usd_bits: or_zero(real_member(event, "total_cost_usd"@)),
        turns: or_zero(unsigned_member(event, "num_turns"@)) as u32,
        duration_ms: match unsigned_member(event, "duration_ms"@) {
            Some(ms) => ms,
            None => fallback_ms,
        },
        response: match text_member(event, "result"@) {
            Some(t) => if p.text_seen {
                p.response
            } else {
                t
            },
            None => p.response,
        },
        is_error: flag_member(event, "is_error"@),
        subtype: text_member(event, "subtype"@),
        ..p
    }
}

/// The state after one event. An `assistant` event is a turn and brings
/// content items; a `result` event brings the totals; any other value
/// changes nothing.
pub open spec fn after_event(p: Progress, event: Json, fallback_ms: u64) -> Progress {
    let kind = text_member(event, "type"@);
    if kind == Some("assistant"@) {
        after_items(Progress { turn: inc(p.turn), ..p }, content_of(event))
    } else if kind == Some("result"@) {
        after_result(p, event, fallback_ms)
    } else {
        p
    }
}

/// The state after the events `events`, in order.
pub open spec fn after_events(p: Progress, events: Seq<Json>, fallback_ms: u64) -> Progress
    decreases events.len(),
{
    if events.len() == 0 {
        p
    } else {
        after_event(after_events(p, events.drop_last(), fallback_ms), events.last(), fallback_ms)
    }
}

/// Whether the run succeeded: the last result event said it was no error.
/// A run without a result event did not succeed.
pub open spec fn succeeded(p: Progress) -> bool {
    match p.is_error {
        Some(e) => !e,
        None => false,
    }
}

/// The split of the turns at the first edit.
pub open spec fn navigation_of(p: Progress) -> NavigationMetrics {
    NavigationMetrics {
        unique_files_read: p.files_read.len() as u32,
        unique_files_edited: p.files_edited.len() as u32,
        first_edit_turn: p.first_edit_turn,
        exploration_turns: if p.first_edit_turn > 0 {
            (p.first_edit_turn - 1) as u32
        } else {
            p.turn
        },
        implementation_turns: if p.first_edit_turn > 0 {
            if p.turn >= p.first_edit_turn - 1 {
                (p.turn - (p.first_edit_turn - 1)) as u32
            } else {
                0
            }
        } else {
            0
        },
    }
}

/// What the parser returns for the final state `p`.
pub open spec fn finish(p: Progress) -> ParsedOutputView {
    ParsedOutputView {
        metrics: RunMetricsView {
            input_tokens: p.input_tokens,
            output_tokens: p.output_tokens,
            cache_read_tokens: p.cache_read_tokens,
            cache_creation_tokens: p.cache_creation_tokens,
            cost_usd_bits: p.cost_usd_bits,
            turns: p.turns,
            duration_ms: p.duration_ms,
            tool_calls: p.tool_calls,
            tools_by_name: counts_of(p.tools),
            files_accessed: p.files_accessed,
            read_calls: p.read_calls,
            success: succeeded(p),
            error: if succeeded(p) {
                None
            } else {
                p.subtype
            },
            tool_details: p.tools,
            navigation: navigation_of(p),
            fmm_usage: FmmUsageView {
                sidecars_read: p.sidecars_read,
                mcp_tool_calls: p.mcp_tool_calls,
                fmm_tool_names: p.fmm_tool_names,
            },
        },
        response_text: p.response,
    }
}

/// What the parser returns for the events `events`.
pub open spec fn parsed(events: Seq<Json>, fallback_ms: u64) -> ParsedOutputView {
    finish(after_events(start(), events, fallback_ms))
}

/// The events that the lines `lines` decode to, in order: a blank line and
/// a line that is no JSON document give none.
pub open spec fn decoded(lines: Seq<Seq<char>>) -> Seq<Json>
    decreases lines.len(),
{
    if lines.len() == 0 {
        Seq::empty()
    } else {
        let before = decoded(lines.drop_last());
        let line = lines.last();
        if is_blank(line) {
            before
        } else {
            match json_of(line) {
                Some(event) => before.push(event),
                None => before,
            }
        }
    }
}

/// The events of a transcript.
pub open spec fn events_of(transcript: Seq<char>) -> Seq<Json> {
    decoded(lines(transcript))
}

/// The running state of the parser.
pub struct Tally {
    pub text_seen: bool,
    pub turn: u32,
    pub first_edit_turn: u32,
    pub tool_calls: u32,
    pub read_calls: u32,
    pub tools: Vec<ToolRecord>,
    pub files_accessed: Vec<String>,
    pub files_read: Vec<String>,
    pub files_edited: Vec<String>,
    pub sidecars_read: u32,
    pub mcp_tool_calls: u32,
    pub fmm_tool_names: Vec<String>,
    pub response: String,
    pub input_tokens: u64,
    pub output_tokens: u64,
    pub cache_read_tokens: u64,
    pub cache_creation_tokens: u64,
    pub cost_usd_bits: u64,
    pub turns: u32,
    pub duration_ms: u64,
    pub is_error: Option<bool>,
    pub subtype: Option<String>,
}

impl View for Tally {
    type V = Progress;

    open spec fn view(&self) -> Progress {
        Progress {
            turn: self.turn,
            first_edit_turn: self.first_edit_turn,
            tool_calls: self.tool_calls,
            read_calls: self.read_calls,
            tools: stats(self.tools@),
            files_accessed: texts(self.files_accessed@),
            files_read: texts(self.files_read@),
            files_edited: texts(self.files_edited@),
            sidecars_read: self.sidecars_read,
            mcp_tool_calls: self.mcp_tool_calls,
            fmm_tool_names: texts(self.fmm_tool_names@),
            response: self.response@,
            text_seen: self.text_seen,
            input_tokens: self.input_tokens,
            output_tokens: self.output_tokens,
            cache_read_tokens: self.cache_read_tokens,
            cache_creation_tokens: self.cache_creation_tokens,
            cost_usd_bits: self.cost_usd_bits,
            turns: self.turns,
            duration_ms: self.duration_ms,
            is_error: self.is_error,
            subtype: opt_text(self.subtype),
        }
    }
}

/// Adds a copy of `s` at the end of `list`.
pub fn push_copy(list: &mut Vec<String>, s: &str)
    ensures
        texts(final(list)@) == texts(old(list)@).push(s@),
{
    let owned = String::from_str(s);
    list.push(owned);
    assert(texts(list@) =~= texts(old(list)@).push(s@));
}

/// Adds a copy of `s` at the end of `list`, unless the list holds it.
pub fn insert_copy(list: &mut Vec<String>, s: &str)
    ensures
        texts(final(list)@) == insert_unique(texts(old(list)@), s@),
{
    let wanted = String::from_str(s);
    let mut i: usize = 0;
    while i < list.len()
        invariant
            0 <= i <= list.len(),
            list@ == old(list)@,
            wanted@ == s@,
            forall|j: int| 0 <= j < i ==> texts(list@)[j] != s@,
        decreases list.len() - i,
    {
        if list[i] == wanted {
            assert(texts(list@)[i as int] == s@);
            return;
        }
        i += 1;
    }
    list.push(wanted);
    assert(texts(list@) =~= texts(old(list)@).push(s@));
}

/// A command as it is recorded.
pub fn shorten(command: &str) -> (out: String)
    ensures
        out@ == shortened(command@),
{
    let chars = chars_of(command);
    if chars.len() > 200 {
        let mut out = string_of_range(&chars, 0, 197);
        push_text(&mut out, "...");
        out
    } else {
        let out = string_of_range(&chars, 0, chars.len());
        assert(chars@.subrange(0, chars.len() as int) == chars@);
        out
    }
}

/// A copy of an optional string.
pub fn copy_of(s: Option<&str>) -> (out: Option<String>)
    ensures
        match s {
            Some(t) => opt_text(out) == Some(t@),
            None => out is None,
        },
{
    match s {
        Some(t) => Some(String::from_str(t)),
        None => None,
    }
}

/// Whether `name` names a tool that reads a file.
pub fn names_read_tool(name: &str) -> (r: bool)
    ensures
        r == is_read_tool(name@),
{
    text_eq(name, "Read") || text_eq(name, "View")
}

/// Whether `name` names a tool that changes a file.
pub fn names_edit_tool(name: &str) -> (r: bool)
    ensures
        r == is_edit_tool(name@),
{
    text_eq(name, "Edit") || text_eq(name, "Write")
}

/// Whether `name` names a tool that searches by pattern.
pub fn names_search_tool(name: &str) -> (r: bool)
    ensures
        r == is_search_tool(name@),
{
    text_eq(name, "Glob") || text_eq(name, "Grep")
}

/// Whether `name` names the shell tool.
pub fn names_shell_tool(name: &str) -> (r: bool)
    ensures
        r == is_shell_tool(name@),
{
    text_eq(name, "Bash")
}

/// Whether `name` names a tool of the integration.
pub fn names_integration_tool(name: &str) -> (r: bool)
    ensures
        r == is_integration_tool(name@),
{
    starts_with(name, "fmm_") || starts_with(name, "mcp__fmm")
}

/// The argument captured from a call of the tool `name` with input `input`.
pub fn capture_argument(name: &str, input: &Json) -> (arg: Option<String>)
    ensures
        opt_text(arg) == captured_argument(name@, *input),
{
    if names_read_tool(name) {
        match input.get("file_path") {
            Some(v) => copy_of(v.as_str()),
            None => copy_of(text_at(input, "path")),
        }
    } else if names_edit_tool(name) {
        copy_of(text_at(input, "file_path"))
    } else if names_search_tool(name) {
        copy_of(text_at(input, "pattern"))
    } else if names_shell_tool(name) {
        match text_at(input, "command") {
            Some(command) => Some(shorten(command)),
            None => None,
        }
    } else {
        None
    }
}

/// Counts one more call of `name` in `tools`, with its argument.
pub fn record(tools: &mut Vec<ToolRecord>, name: &str, arg: &Option<String>)
    ensures
        stats(final(tools)@) == recorded(stats(old(tools)@), name@, opt_text(*arg)),
{
    let wanted = String::from_str(name);
    let ghost before = stats(tools@);
    let mut i: usize = 0;
    while i < tools.len()
        invariant
            0 <= i <= tools.len(),
            tools@ == old(tools)@,
            before == stats(tools@),
            wanted@ == name@,
            position(before, name@, 0) == position(before, name@, i as int),
        decreases tools.len() - i,
    {
        if tools[i].name == wanted {
            assert(before[i as int].name == name@);
            tools[i].detail.count = bump(tools[i].detail.count);
            match arg {
                Some(a) => {
                    let owned = String::from_str(a.as_str());
                    let ghost args_before = tools[i as int].detail.args@;
                    tools[i].detail.args.push(owned);
                    assert(texts(tools[i as int].detail.args@) =~= texts(args_before).push(a@));
                },
                None => {},
            }
            assert(stats(tools@) =~= recorded(before, name@, opt_text(*arg)));
            return;
        }
        assert(before[i as int].name != name@);
        i += 1;
    }
    let mut args: Vec<String> = Vec::new();
    match arg {
        Some(a) => {
            let owned = String::from_str(a.as_str());
            args.push(owned);
            assert(texts(args@) =~= Seq::<Seq<char>>::empty().push(a@));
        },
        None => {
            assert(texts(args@) =~= Seq::<Seq<char>>::empty());
        },
    }
    tools.push(ToolRecord { name: wanted, detail: ToolDetail { count: 1, args } });
    assert(stats(tools@) =~= recorded(before, name@, opt_text(*arg)));
}

impl Tally {
    /// The state before any event.
    pub fn new() -> (t: Tally)
        ensures
            t@ == start(),
    {
        let t = Tally {
            text_seen: false,
            turn: 0,
            first_edit_turn: 0,
            tool_calls: 0,
            read_calls: 0,
            tools: Vec::new(),
            files_accessed: Vec::new(),
            files_read: Vec::new(),
            files_edited: Vec::new(),
            sidecars_read: 0,
            mcp_tool_calls: 0,
            fmm_tool_names: Vec::new(),
            response: String::new(),
            input_tokens: 0,
            output_tokens: 0,
            cache_read_tokens: 0,
            cache_creation_tokens: 0,
            cost_usd_bits: 0,
            turns: 0,
            duration_ms: 0,
            is_error: None,
            subtype: None,
        };
        assert(t@.tools =~= Seq::empty());
        assert(t@.files_accessed =~= Seq::empty());
        assert(t@.files_read =~= Seq::empty());
        assert(t@.files_edited =~= Seq::empty());
        assert(t@.fmm_tool_names =~= Seq::empty());
        t
    }
}

/// Takes one `tool_use` content item into the tally.
pub fn process_tool_use(item: &Json, tally: &mut Tally)
    ensures
        final(tally)@ == after_tool_use(old(tally)@, *item),
{
    tally.tool_calls = bump(tally.tool_calls);
    let name = match text_at(item, "name") {
        Some(name) => name,
        None => {
            return;
        },
    };
    let arg = match item.get("input") {
        Some(input) => capture_argument(name, input),
        None => None,
    };
    record(&mut tally.tools, name, &arg);
    if names_read_tool(name) {
        tally.read_calls = bump(tally.read_calls);
        match &arg {
            Some(path) => {
                push_copy(&mut tally.files_accessed, path.as_str());
                insert_copy(&mut tally.files_read, path.as_str());
                if ends_with(path.as_str(), ".fmm") {
                    tally.sidecars_read = bump(tally.sidecars_read);
                }
            },
            None => {},
        }
    } else if names_edit_tool(name) {
        match &arg {
            Some(path) => {
                insert_copy(&mut tally.files_edited, path.as_str());
            },
            None => {},
        }
        if tally.first_edit_turn == 0 {
            tally.first_edit_turn = tally.turn;
        }
    } else if names_search_tool(name) || names_shell_tool(name) {
    } else if names_integration_tool(name) {
        tally.mcp_tool_calls = bump(tally.mcp_tool_calls);
        push_copy(&mut tally.fmm_tool_names, name);
    }
}

/// Takes one content item of an assistant event into the tally.
pub fn process_item(item: &Json, tally: &mut Tally)
    ensures
        final(tally)@ == after_item(old(tally)@, *item),
{
    match text_at(item, "type") {
        Some(kind) => {
            if text_eq(kind, "tool_use") {
                process_tool_use(item, tally);
            } else if text_eq(kind, "text") {
                match text_at(item, "text") {
                    Some(t) => {
                        tally.response = String::from_str(t);
                        tally.text_seen = true;
                    },
                    None => {},
                }
            }
        },
        None => {},
    }
}

/// Takes the content items of an assistant event into the tally, in order.
pub fn process_items(items: &Vec<Json>, tally: &mut Tally)
    ensures
        final(tally)@ == after_items(old(tally)@, items@),
{
    let mut i: usize = 0;
    assert(items@.take(0) =~= Seq::empty());
    while i < items.len()
        invariant
            0 <= i <= items.len(),
            tally@ == after_items(old(tally)@, items@.take(i as int)),
        decreases items.len() - i,
    {
        process_item(&items[i], tally);
        assert(items@.take(i + 1).drop_last() =~= items@.take(i as int));
        i += 1;
    }
    assert(items@.take(i as int) =~= items@);
}

/// Takes a result event into the tally.
pub fn process_result(event: &Json, tally: &mut Tally, fallback_ms: u64)
    ensures
        final(tally)@ == after_result(old(tally)@, *event, fallback_ms),
{
    match event.get("usage") {
        Some(usage) => {
            tally.input_tokens = value_or_zero(unsigned_at(usage, "input_tokens"));
            tally.output_tokens = value_or_zero(unsigned_at(usage, "output_tokens"));
            tally.cache_read_tokens = value_or_zero(unsigned_at(usage, "cache_read_input_tokens"));
            tally.cache_creation_tokens = value_or_zero(
                unsigned_at(usage, "cache_creation_input_tokens"),
            );
        },
        None => {},
    }
    tally.cost_usd_bits = value_or_zero(real_at(event, "total_cost_usd"));
    let turns = value_or_zero(unsigned_at(event, "num_turns"));
    tally.turns = #[verifier::truncate]
    (turns as u32);
    tally.duration_ms = match unsigned_at(event, "duration_ms") {
        Some(ms) => ms,
        None => fallback_ms,
    };
    match text_at(event, "result") {
        Some(t) => {
            if !tally.text_seen {
                tally.response = String::from_str(t);
            }
        },
        None => {},
    }
    tally.is_error = flag_at(event, "is_error");
    tally.subtype = copy_of(text_at(event, "subtype"));
}

/// The value of an optional number, 0 where there is none.
pub fn value_or_zero(v: Option<u64>) -> (r: u64)
    ensures
        r == or_zero(v),
{
    match v {
        Some(v) => v,
        None => 0,
    }
}

/// Takes one event into the tally.
pub fn process_event(event: &Json, tally: &mut Tally, fallback_ms: u64)
    ensures
        final(tally)@ == after_event(old(tally)@, *event, fallback_ms),
{
    match text_at(event, "type") {
        Some(kind) => {
            if text_eq(kind, "assistant") {
                tally.turn = bump(tally.turn);
                match event.get("message") {
                    Some(message) => match message.get("content") {
                        Some(content) => match content.as_array() {
                            Some(items) => {
                                process_items(items, tally);
                            },
                            None => {},
                        },
                        None => {},
                    },
                    None => {},
                }
            } else if text_eq(kind, "result") {
                process_result(event, tally, fallback_ms);
            }
        },
        None => {},
    }
}

/// The name and count of each record.
pub fn tool_counts(tools: &Vec<ToolRecord>) -> (out: Vec<ToolCount>)
    ensures
        counts(out@) == counts_of(stats(tools@)),
{
    let mut out: Vec<ToolCount> = Vec::new();
    let mut i: usize = 0;
    while i < tools.len()
        invariant
            0 <= i <= tools.len(),
            out.len() == i,
            forall|j: int| 0 <= j < i ==> (#[trigger] out@[j])@ == (tools@[j].name@, tools@[j].detail.count),
        decreases tools.len() - i,
    {
        out.push(ToolCount { name: tools[i].name.clone(), count: tools[i].detail.count });
        i += 1;
    }
    assert(counts(out@) =~= counts_of(stats(tools@)));
    out
}

impl Tally {
    /// The split of the turns at the first edit.
    pub fn navigation(&self) -> (nav: NavigationMetrics)
        ensures
            nav == navigation_of(self@),
    {
        let unique_files_read = #[verifier::truncate]
        (self.files_read.len() as u32);
        let unique_files_edited = #[verifier::truncate]
        (self.files_edited.len() as u32);
        assert(texts(self.files_read@).len() == self.files_read@.len());
        assert(texts(self.files_edited@).len() == self.files_edited@.len());
        let (exploration_turns, implementation_turns) = if self.first_edit_turn > 0 {
            let before: u32 = self.first_edit_turn - 1;
            (before, self.turn.saturating_sub(before))
        } else {
            (self.turn, 0)
        };
        NavigationMetrics {
            unique_files_read,
            unique_files_edited,
            first_edit_turn: self.first_edit_turn,
            exploration_turns,
            implementation_turns,
        }
    }

    /// The metrics and the response that the tally stands for.
    pub fn finish(self) -> (out: ParsedOutput)
        ensures
            out@ == finish(self@),
    {
        let navigation = self.navigation();
        let success = match self.is_error {
            Some(e) => !e,
            None => false,
        };
        let tools_by_name = tool_counts(&self.tools);
        let error = if success {
            None
        } else {
            self.subtype
        };
        ParsedOutput {
            metrics: RunMetrics {
                input_tokens: self.input_tokens,
                output_tokens: self.output_tokens,
                cache_read_tokens: self.cache_read_tokens,
                cache_creation_tokens: self.cache_creation_tokens,
                cost_usd_bits: self.cost_usd_bits,
                turns: self.turns,
                duration_ms: self.duration_ms,
                tool_calls: self.tool_calls,
                tools_by_name,
                files_accessed: self.files_accessed,
                read_calls: self.read_calls,
                success,
                error,
                tool_details: self.tools,
                navigation,
                fmm_usage: FmmUsage {
                    sidecars_read: self.sidecars_read,
                    mcp_tool_calls: self.mcp_tool_calls,
                    fmm_tool_names: self.fmm_tool_names,
                },
            },
            response_text: self.response,
        }
    }
}

/// The metrics of a run whose transcript decoded to `events`.
///
/// `fallback_ms` is the duration reported where the result event has none.
pub fn metrics_of_events(events: &Vec<Json>, fallback_ms: u64) -> (out: ParsedOutput)
    ensures
        out@ == parsed(events@, fallback_ms),
        out.metrics.wf(),
{
    let mut tally = Tally::new();
    let mut i: usize = 0;
    assert(events@.take(0) =~= Seq::empty());
    while i < events.len()
        invariant
            0 <= i <= events.len(),
            tally@ == after_events(start(), events@.take(i as int), fallback_ms),
        decreases events.len() - i,
    {
        process_event(&events[i], &mut tally, fallback_ms);
        assert(events@.take(i + 1).drop_last() =~= events@.take(i as int));
        i += 1;
    }
    assert(events@.take(i as int) =~= events@);
    proof {
        lemma_after_events_well_formed(events@, fallback_ms);
    }
    tally.finish()
}

/// Decodes the events of a transcript: one per line that is not blank and
/// holds a JSON document. Any other line is passed over.
pub fn decode_events(transcript: &str) -> (events: Vec<Json>)
    ensures
        events@ == events_of(transcript@),
{
    let all = lines_of(transcript);
    let mut events: Vec<Json> = Vec::new();
    let mut i: usize = 0;
    assert(texts(all@).take(0) =~= Seq::empty());
    while i < all.len()
        invariant
            0 <= i <= all.len(),
            texts(all@) == lines(transcript@),
            events@ == decoded(texts(all@).take(i as int)),
        decreases all.len() - i,
    {
        let line = all[i].as_str();
        assert(texts(all@).take(i + 1).drop_last() =~= texts(all@).take(i as int));
        assert(texts(all@).take(i + 1).last() == line@);
        if !blank(line) {
            match decode(line) {
                Some(event) => {
                    events.push(event);
                },
                None => {},
            }
        }
        i += 1;
    }
    assert(texts(all@).take(i as int) =~= texts(all@));
    events
}

/// Reads the metrics of a run off its transcript.
///
/// Never fails: a line that cannot be read is passed over, and a transcript
/// without a result event gives the metrics of a run that did not succeed.
/// `fallback_ms` is the duration reported where the result event has none.
pub fn parse_stream_json(output: &str, fallback_ms: u64) -> (out: ParsedOutput)
    ensures
        out@ == parsed(events_of(output@), fallback_ms),
        out.metrics.wf(),
{
    let events = decode_events(output);
    metrics_of_events(&events, fallback_ms)
}

/// The metrics of a run of which nothing is known: every count is 0 and
/// the run did not succeed.
pub open spec fn empty_metrics() -> RunMetricsView {
    finish(start()).metrics
}

impl RunMetrics {
    /// The metrics of a run of which nothing is known.
    pub fn new() -> (m: RunMetrics)
        ensures
            m@ == empty_metrics(),
            m.wf(),
    {
        let parsed = Tally::new().finish();
        assert(counts_of(start().tools) =~= Seq::empty());
        parsed.metrics
    }
}

impl Default for RunMetrics {
    fn default() -> (m: RunMetrics)
        ensures
            m@ == empty_metrics(),
            m.wf(),
    {
        RunMetrics::new()
    }
}

/// The count kept for `name` at or after index `from`, if there is one.
pub open spec fn count_from(list: Seq<(Seq<char>, u32)>, name: Seq<char>, from: int) -> Option<u32>
    decreases list.len() - from,
{
    if from < 0 || from >= list.len() {
        None
    } else if list[from].0 == name {
        Some(list[from].1)
    } else {
        count_from(list, name, from + 1)
    }
}

/// How often the tool `name` was called, by the counts `list`; `None` for a
/// tool that was not called.
pub fn count_for(list: &Vec<ToolCount>, name: &str) -> (r: Option<u32>)
    ensures
        r == count_from(counts(list@), name@, 0),
{
    let wanted = String::from_str(name);
    let mut i: usize = 0;
    while i < list.len()
        invariant
            0 <= i <= list.len(),
            wanted@ == name@,
            count_from(counts(list@), name@, 0) == count_from(counts(list@), name@, i as int),
        decreases list.len() - i,
    {
        assert(counts(list@)[i as int] == list@[i as int]@);
        if list[i].name == wanted {
            return Some(list[i].count);
        }
        i += 1;
    }
    None
}

/// The calls of the tool `name`, by the records `list`; `None` for a tool
/// that was not called.
pub fn detail_for<'a>(list: &'a Vec<ToolRecord>, name: &str) -> (r: Option<&'a ToolDetail>)
    ensures
        match r {
            Some(detail) => {
                let at = position(stats(list@), name@, 0);
                0 <= at < list@.len() && *detail == list@[at].detail
            },
            None => position(stats(list@), name@, 0) == list@.len(),
        },
{
    let wanted = String::from_str(name);
    let mut i: usize = 0;
    while i < list.len()
        invariant
            0 <= i <= list.len(),
            wanted@ == name@,
            stats(list@).len() == list@.len(),
            position(stats(list@), name@, 0) == position(stats(list@), name@, i as int),
        decreases list.len() - i,
    {
        assert(stats(list@)[i as int] == list@[i as int]@);
        if list[i].name == wanted {
            return Some(&list[i].detail);
        }
        i += 1;
    }
    None
}

/// A state as the fold keeps it: no tool has two entries, no path is kept
/// twice among the files read or among the files edited, the files read are
/// the files accessed, and the first edit was not after the current turn.
pub open spec fn well_formed(p: Progress) -> bool {
    &&& distinct_names(p.tools)
    &&& p.files_read.no_duplicates()
    &&& p.files_edited.no_duplicates()
    &&& p.files_read.to_set() == p.files_accessed.to_set()
    &&& p.first_edit_turn <= p.turn
}

/// Where `position` points there is the entry of the name, and there is
/// none before it.
pub proof fn lemma_position(tools: Seq<ToolStat>, name: Seq<char>, from: int)
    requires
        0 <= from <= tools.len(),
    ensures
        from <= position(tools, name, from) <= tools.len(),
        position(tools, name, from) < tools.len() ==> tools[position(tools, name, from)].name
            == name,
        forall|j: int| from <= j < position(tools, name, from) ==> tools[j].name != name,
    decreases tools.len() - from,
{
    if from < tools.len() && tools[from].name != name {
        lemma_position(tools, name, from + 1);
    }
}

/// Recording a call leaves no tool with two entries.
pub proof fn lemma_recorded_distinct(tools: Seq<ToolStat>, name: Seq<char>, arg: Option<Seq<char>>)
    requires
        distinct_names(tools),
    ensures
        distinct_names(recorded(tools, name, arg)),
{
    lemma_position(tools, name, 0);
    let at = position(tools, name, 0);
    let after = recorded(tools, name, arg);
    assert forall|i: int, j: int| 0 <= i < j < after.len() implies (#[trigger] after[i]).name != (
    #[trigger] after[j]).name by {
        if at < tools.len() {
            assert(after[i].name == tools[i].name);
            assert(after[j].name == tools[j].name);
        } else {
            assert(after[i] == tools[i]);
            if j < tools.len() {
                assert(after[j] == tools[j]);
            }
        }
    }
}

/// Adding a path that is not yet kept leaves no path kept twice, and the
/// paths kept are those before and the new one.
pub proof fn lemma_insert_unique(paths: Seq<Seq<char>>, path: Seq<char>)
    requires
        paths.no_duplicates(),
    ensures
        insert_unique(paths, path).no_duplicates(),
        insert_unique(paths, path).to_set() == paths.to_set().insert(path),
{
    let after = insert_unique(paths, path);
    if paths.contains(path) {
        assert(after.to_set() =~= paths.to_set().insert(path));
    } else {
        assert forall|i: int, j: int| 0 <= i < after.len() && 0 <= j < after.len() && i
            != j implies after[i] != after[j] by {
            if i < paths.len() && j < paths.len() {
                assert(after[i] == paths[i] && after[j] == paths[j]);
            } else if i < paths.len() {
                assert(after[i] == paths[i]);
                assert(paths.contains(paths[i]));
            } else {
                assert(after[j] == paths[j]);
                assert(paths.contains(paths[j]));
            }
        }
        lemma_push_to_set(paths, path);
    }
}

/// The elements of a sequence with one more at the end are those before
/// and the new one.
pub proof fn lemma_push_to_set(paths: Seq<Seq<char>>, path: Seq<char>)
    ensures
        paths.push(path).to_set() == paths.to_set().insert(path),
{
    let after = paths.push(path);
    assert forall|e: Seq<char>| after.to_set().contains(e) == paths.to_set().insert(
        path,
    ).contains(e) by {
        if after.contains(e) {
            let k = choose|k: int| 0 <= k < after.len() && after[k] == e;
            if k < paths.len() {
                assert(paths[k] == e);
            }
        }
        if paths.contains(e) {
            let k = choose|k: int| 0 <= k < paths.len() && paths[k] == e;
            assert(after[k] == e);
        }
        if e == path {
            assert(after[paths.len() as int] == e);
        }
    }
    assert(after.to_set() =~= paths.to_set().insert(path));
}

/// A tool call keeps the state well formed.
pub proof fn lemma_after_tool_use_well_formed(p: Progress, item: Json)
    requires
        well_formed(p),
    ensures
        well_formed(after_tool_use(p, item)),
        after_tool_use(p, item).turn == p.turn,
{
    match text_member(item, "name"@) {
        None => {},
        Some(name) => {
            let arg = match item.member("input"@) {
                Some(input) => captured_argument(name, input),
                None => None,
            };
            lemma_recorded_distinct(p.tools, name, arg);
            match arg {
                Some(path) => {
                    lemma_insert_unique(p.files_read, path);
                    lemma_insert_unique(p.files_edited, path);
                    lemma_push_to_set(p.files_accessed, path);
                },
                None => {},
            }
        },
    }
}

/// The content items of an event keep the state well formed.
pub proof fn lemma_after_items_well_formed(p: Progress, items: Seq<Json>)
    requires
        well_formed(p),
    ensures
        well_formed(after_items(p, items)),
        after_items(p, items).turn == p.turn,
    decreases items.len(),
{
    if items.len() > 0 {
        lemma_after_items_well_formed(p, items.drop_last());
        lemma_after_tool_use_well_formed(after_items(p, items.drop_last()), items.last());
    }
}

/// The state after any run of events is well formed.
pub proof fn lemma_after_events_well_formed(events: Seq<Json>, fallback_ms: u64)
    ensures
        well_formed(after_events(start(), events, fallback_ms)),
    decreases events.len(),
{
    if events.len() > 0 {
        lemma_after_events_well_formed(events.drop_last(), fallback_ms);
        let p = after_events(start(), events.drop_last(), fallback_ms);
        let event = events.last();
        if text_member(event, "type"@) == Some("assistant"@) {
            lemma_after_items_well_formed(Progress { turn: inc(p.turn), ..p }, content_of(event));
        }
    } else {
        assert(start().files_read.to_set() =~= start().files_accessed.to_set());
    }
}

/// The turns of a run are split in two: whatever the events, the turns of
/// exploring and the turns of implementing add up to the turns counted, and
/// without an edit every turn is one of exploring.
pub proof fn lemma_turns_are_split(events: Seq<Json>, fallback_ms: u64)
    ensures
        ({
            let p = after_events(start(), events, fallback_ms);
            let nav = parsed(events, fallback_ms).metrics.navigation;
            &&& nav.exploration_turns + nav.implementation_turns == p.turn
            &&& nav.first_edit_turn == 0 ==> nav.implementation_turns == 0
            &&& nav.first_edit_turn > 0 ==> nav.exploration_turns == nav.first_edit_turn - 1
        }),
{
    lemma_after_events_well_formed(events, fallback_ms);
}

/// The metrics of any run name each tool once, and count as files read
/// the distinct paths among the files accessed.
pub proof fn lemma_metrics_are_consistent(events: Seq<Json>, fallback_ms: u64)
    ensures
        ({
            let m = parsed(events, fallback_ms).metrics;
            &&& distinct_names(m.tool_details)
            &&& m.tools_by_name.len() == m.tool_details.len()
            &&& forall|i: int|
                0 <= i < m.tool_details.len() ==> #[trigger] m.tools_by_name[i] == (
                    m.tool_details[i].name,
                    m.tool_details[i].count,
                )
            &&& m.navigation.unique_files_read == m.files_accessed.to_set().len() as u32
        }),
{
    lemma_after_events_well_formed(events, fallback_ms);
    let p = after_events(start(), events, fallback_ms);
    p.files_read.unique_seq_to_set();
}

/// The phase of a run: it explores until its first edit and implements
/// from then on.
#[derive(Debug, Clone, Copy, PartialEq, Eq, Structural)]
pub enum Phase {
    Exploring,
    Implementing,
}

/// The phase of a run in the state `p`.
pub open spec fn phase_of(p: Progress) -> Phase {
    if p.first_edit_turn == 0 {
        Phase::Exploring
    } else {
        Phase::Implementing
    }
}

impl Tally {
    /// The phase of the run so far.
    pub fn phase(&self) -> (phase: Phase)
        ensures
            phase == phase_of(self@),
    {
        if self.first_edit_turn == 0 {
            Phase::Exploring
        } else {
            Phase::Implementing
        }
    }
}

/// Content items never take a run back to exploring, and never move the
/// turn of its first edit.
pub proof fn lemma_items_keep_implementing(p: Progress, items: Seq<Json>)
    requires
        phase_of(p) == Phase::Implementing,
    ensures
        after_items(p, items).first_edit_turn == p.first_edit_turn,
    decreases items.len(),
{
    if items.len() > 0 {
        lemma_items_keep_implementing(p, items.drop_last());
    }
}

/// A run starts exploring, and the step to implementing is taken once and
/// for good: no event takes an implementing run back to exploring or moves
/// the turn of its first edit.
pub proof fn lemma_phase_is_irreversible(p: Progress, event: Json, fallback_ms: u64)
    requires
        phase_of(p) == Phase::Implementing,
    ensures
        phase_of(after_event(p, event, fallback_ms)) == Phase::Implementing,
        after_event(p, event, fallback_ms).first_edit_turn == p.first_edit_turn,
        phase_of(start()) == Phase::Exploring,
{
    if text_member(event, "type"@) == Some("assistant"@) {
        lemma_items_keep_implementing(Progress { turn: inc(p.turn), ..p }, content_of(event));
    }
}

/// An exploring run takes the step to implementing at a tool call exactly
/// where the call is one of an edit tool in a turn that was counted.
pub proof fn lemma_first_edit_starts_implementing(p: Progress, item: Json)
    requires
        phase_of(p) == Phase::Exploring,
    ensures
        phase_of(after_tool_use(p, item)) == Phase::Implementing <==> (p.turn > 0 && (text_member(
            item,
            "name"@,
        ) matches Some(name) && is_edit_tool(name) && !is_read_tool(name))),
{
}

/// Lines are read one by one: the events of two runs of lines, one after the
/// other, are the events of the first and then those of the second.
pub proof fn lemma_decoded_concat(first: Seq<Seq<char>>, second: Seq<Seq<char>>)
    ensures
        decoded(first + second) == decoded(first) + decoded(second),
    decreases second.len(),
{
    if second.len() == 0 {
        assert(first + second =~= first);
        assert(decoded(first) + decoded(second) =~= decoded(first));
    } else {
        let all = first + second;
        assert(all.drop_last() =~= first + second.drop_last());
        assert(all.last() == second.last());
        lemma_decoded_concat(first, second.drop_last());
        let head = decoded(first);
        let tail = decoded(second.drop_last());
        if !is_blank(second.last()) && json_of(second.last()) is Some {
            let event = json_of(second.last())->Some_0;
            assert((head + tail).push(event) =~= head + tail.push(event));
        }
    }
}

/// A line that cannot be read loses no event around it: a blank line, or a
/// line that is no JSON document, between two runs of lines leaves the
/// events of both as they are.
pub proof fn lemma_garbage_is_skipped(
    before: Seq<Seq<char>>,
    line: Seq<char>,
    after: Seq<Seq<char>>,
)
    requires
        is_blank(line) || json_of(line) is None,
    ensures
        decoded(before.push(line) + after) == decoded(before + after),
{
    lemma_decoded_concat(before.push(line), after);
    lemma_decoded_concat(before, after);
    assert(before.push(line).drop_last() =~= before);
}

/// Events are taken in one at a time: the state after two runs of events,
/// one after the other, is the state after the second run, started from the
/// state after the first.
pub proof fn lemma_after_events_concat(
    p: Progress,
    first: Seq<Json>,
    second: Seq<Json>,
    fallback_ms: u64,
)
    ensures
        after_events(p, first + second, fallback_ms) == after_events(
            after_events(p, first, fallback_ms),
            second,
            fallback_ms,
        ),
    decreases second.len(),
{
    if second.len() == 0 {
        assert(first + second =~= first);
    } else {
        let all = first + second;
        assert(all.drop_last() =~= first + second.drop_last());
        assert(all.last() == second.last());
        lemma_after_events_concat(p, first, second.drop_last(), fallback_ms);
    }
}

} // verus!
