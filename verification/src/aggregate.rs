//! Grouping the paired results of a batch, and rendering its report.
//!
//! Every task of every report gives one [`MetricPair`], the observations of
//! the two variants side by side. The pairs are kept three times: all
//! together, by the language of the repository, and by the size category
//! of its codebase. The means, deviations and significance of each group
//! are drawn from its pairs by the caller, who hands them back as text for
//! the tables of the rendered report.
//!
//! The groups of each kind are a vector of buckets, sorted by label, each
//! label once; what a hash map keyed by strings holds cannot be stated
//! with `vstd`, and the sorted order is the order of the rendered tables.

use crate::batch::CorpusEntry;
use crate::evaluator::EvalScores;
use crate::report::{ComparisonReport, TaskComparison};
use crate::text::{chars_of, decimal, push_decimal, push_text, texts};
use vstd::prelude::*;

verus! {

/// The observations of the two variants on one task.
#[derive(Debug, Clone, Copy, PartialEq, Eq, Structural)]
pub struct MetricPair {
    pub control_tools: u32,
    pub fmm_tools: u32,
    /// Input and output tokens together.
    pub control_tokens: u64,
    pub fmm_tokens: u64,
    /// The cost in dollars, as the bit pattern of a double.
    pub control_cost_bits: u64,
    pub fmm_cost_bits: u64,
    pub control_duration: u64,
    pub fmm_duration: u64,
    pub control_reads: u32,
    pub fmm_reads: u32,
}

/// The sum of two token counts, or the largest `u64` where the sum is
/// larger.
pub open spec fn tokens_sum(a: u64, b: u64) -> u64 {
    if a + b > u64::MAX {
        u64::MAX
    } else {
        (a + b) as u64
    }
}

/// The observations that one task comparison gives.
pub open spec fn pair_of(t: TaskComparison) -> MetricPair {
    MetricPair {
        control_tools: t.control.tool_calls,
        fmm_tools: t.fmm.tool_calls,
        control_tokens: tokens_sum(t.control.input_tokens, t.control.output_tokens),
        fmm_tokens: tokens_sum(t.fmm.input_tokens, t.fmm.output_tokens),
        control_cost_bits: t.control.total_cost_usd_bits,
        fmm_cost_bits: t.fmm.total_cost_usd_bits,
        control_duration: t.control.duration_ms,
        fmm_duration: t.fmm.duration_ms,
        control_reads: t.control.read_calls,
        fmm_reads: t.fmm.read_calls,
    }
}

/// The observations that one task comparison gives.
pub fn metric_pair(t: &TaskComparison) -> (pair: MetricPair)
    ensures
        pair == pair_of(*t),
{
    MetricPair {
        control_tools: t.control.tool_calls,
        fmm_tools: t.fmm.tool_calls,
        control_tokens: t.control.input_tokens.saturating_add(t.control.output_tokens),
        fmm_tokens: t.fmm.input_tokens.saturating_add(t.fmm.output_tokens),
        control_cost_bits: t.control.total_cost_usd_bits,
        fmm_cost_bits: t.fmm.total_cost_usd_bits,
        control_duration: t.control.duration_ms,
        fmm_duration: t.fmm.duration_ms,
        control_reads: t.control.read_calls,
        fmm_reads: t.fmm.read_calls,
    }
}

/// The fewest observations per variant for which a significance test is
/// made.
pub const MIN_SAMPLE: usize = 3;

/// Whether a group with `control` observations of the baseline and `fmm`
/// of the augmented variant has a p-value: both need at least three.
pub fn has_p_value(control: usize, fmm: usize) -> (r: bool)
    ensures
        r == (control >= 3 && fmm >= 3),
{
    control >= MIN_SAMPLE && fmm >= MIN_SAMPLE
}

/// `a` comes before `b` in the order of a dictionary, from index `from` on,
/// where the two agree before `from`: character by character, a shorter
/// text before its extensions.
pub open spec fn less_from(a: Seq<char>, b: Seq<char>, from: int) -> bool
    decreases a.len() - from,
{
    if from < 0 || from >= a.len() || from >= b.len() {
        a.len() < b.len()
    } else if a[from] != b[from] {
        a[from] < b[from]
    } else {
        less_from(a, b, from + 1)
    }
}

/// `a` comes before `b` in the order of a dictionary.
pub open spec fn lex_less(a: Seq<char>, b: Seq<char>) -> bool {
    less_from(a, b, 0)
}

/// Whether `a` comes before `b` in the order of a dictionary.
pub fn text_less(a: &str, b: &str) -> (r: bool)
    ensures
        r == lex_less(a@, b@),
{
    let av = chars_of(a);
    let bv = chars_of(b);
    let mut i: usize = 0;
    while i < av.len() && i < bv.len()
        invariant
            0 <= i <= av.len(),
            i <= bv.len(),
            av@ == a@,
            bv@ == b@,
            lex_less(a@, b@) == less_from(a@, b@, i as int),
        decreases av.len() - i,
    {
        if av[i] != bv[i] {
            return av[i] < bv[i];
        }
        i += 1;
    }
    av.len() < bv.len()
}

/// Two texts that agree before `from` and are in neither order from there
/// on are the same.
pub proof fn lemma_less_total(a: Seq<char>, b: Seq<char>, from: int)
    requires
        0 <= from <= a.len(),
        from <= b.len(),
        a.take(from) == b.take(from),
        !less_from(a, b, from),
        !less_from(b, a, from),
    ensures
        a == b,
    decreases a.len() - from,
{
    if from < a.len() && from < b.len() {
        assert(a[from] == b[from]);
        assert(a.take(from + 1) =~= a.take(from).push(a[from]));
        assert(b.take(from + 1) =~= b.take(from).push(b[from]));
        lemma_less_total(a, b, from + 1);
    } else {
        assert(a.len() == b.len());
        assert(a.take(from) =~= a);
        assert(b.take(from) =~= b);
    }
}

/// The order is strict: no text comes before itself.
pub proof fn lemma_less_irreflexive(a: Seq<char>, from: int)
    requires
        0 <= from,
    ensures
        !less_from(a, a, from),
    decreases a.len() - from,
{
    if from < a.len() {
        lemma_less_irreflexive(a, from + 1);
    }
}

/// The order is transitive.
pub proof fn lemma_less_transitive(a: Seq<char>, b: Seq<char>, c: Seq<char>, from: int)
    requires
        0 <= from,
        less_from(a, b, from),
        less_from(b, c, from),
    ensures
        less_from(a, c, from),
    decreases a.len() - from,
{
    if from < a.len() && from < b.len() && from < c.len() {
        if a[from] == b[from] && b[from] == c[from] {
            lemma_less_transitive(a, b, c, from + 1);
        }
    }
}

/// The labels are in strictly rising order.
pub open spec fn strictly_sorted(labels: Seq<Seq<char>>) -> bool {
    forall|i: int, j: int|
        0 <= i < j < labels.len() ==> lex_less(#[trigger] labels[i], #[trigger] labels[j])
}

/// The first index at or after `from` whose label does not come before
/// `label`, or `labels.len()`: the place of `label` among sorted labels.
pub open spec fn slot_from(labels: Seq<Seq<char>>, label: Seq<char>, from: int) -> int
    decreases labels.len() - from,
{
    if from < 0 || from >= labels.len() {
        labels.len() as int
    } else if !lex_less(labels[from], label) {
        from
    } else {
        slot_from(labels, label, from + 1)
    }
}

/// The place of `label` among the sorted labels `labels`.
pub open spec fn slot(labels: Seq<Seq<char>>, label: Seq<char>) -> int {
    slot_from(labels, label, 0)
}

/// Where the slot points, the labels before it come before `label` and the
/// label at it does not.
pub proof fn lemma_slot(labels: Seq<Seq<char>>, label: Seq<char>, from: int)
    requires
        0 <= from <= labels.len(),
    ensures
        from <= slot_from(labels, label, from) <= labels.len(),
        forall|j: int| from <= j < slot_from(labels, label, from) ==> lex_less(labels[j], label),
        slot_from(labels, label, from) < labels.len() ==> !lex_less(
            labels[slot_from(labels, label, from)],
            label,
        ),
    decreases labels.len() - from,
{
    if from < labels.len() && lex_less(labels[from], label) {
        lemma_slot(labels, label, from + 1);
    }
}

/// `labels` with `label` in its place, unless it is there already.
pub open spec fn noted(labels: Seq<Seq<char>>, label: Seq<char>) -> Seq<Seq<char>> {
    let at = slot(labels, label);
    if 0 <= at < labels.len() && labels[at] == label {
        labels
    } else if 0 <= at <= labels.len() {
        labels.insert(at, label)
    } else {
        labels
    }
}

/// Noting a label keeps sorted labels sorted, and the label is among them
/// afterwards.
pub proof fn lemma_noted_sorted(labels: Seq<Seq<char>>, label: Seq<char>)
    requires
        strictly_sorted(labels),
    ensures
        strictly_sorted(noted(labels, label)),
        noted(labels, label).contains(label),
        forall|other: Seq<char>| labels.contains(other) ==> noted(labels, label).contains(other),
        forall|other: Seq<char>|
            noted(labels, label).contains(other) ==> other == label || labels.contains(other),
{
    lemma_slot(labels, label, 0);
    let at = slot(labels, label);
    let after = noted(labels, label);
    if at < labels.len() && labels[at] == label {
        assert(after[at] == label);
    } else {
        assert(after == labels.insert(at, label));
        assert(after[at] == label);
        if at < labels.len() {
            lemma_less_irreflexive(label, 0);
            if !lex_less(label, labels[at]) {
                assert(labels[at].take(0) =~= label.take(0));
                lemma_less_total(labels[at], label, 0);
            }
            assert(lex_less(label, labels[at]));
        }
        assert forall|i: int, j: int| 0 <= i < j < after.len() implies lex_less(
            #[trigger] after[i],
            #[trigger] after[j],
        ) by {
            if j < at {
                assert(after[i] == labels[i] && after[j] == labels[j]);
            } else if j == at {
                assert(after[i] == labels[i]);
            } else if i == at {
                assert(after[j] == labels[j - 1]);
                if j - 1 > at {
                    assert(lex_less(labels[at], labels[j - 1]));
                    lemma_less_transitive(label, labels[at], labels[j - 1], 0);
                }
            } else if i < at {
                assert(after[i] == labels[i] && after[j] == labels[j - 1]);
            } else {
                assert(after[i] == labels[i - 1] && after[j] == labels[j - 1]);
            }
        }
        assert forall|other: Seq<char>| labels.contains(other) implies after.contains(other) by {
            let k = choose|k: int| 0 <= k < labels.len() && labels[k] == other;
            if k < at {
                assert(after[k] == other);
            } else {
                assert(after[k + 1] == other);
            }
        }
        assert forall|other: Seq<char>| after.contains(other) implies other == label
            || labels.contains(other) by {
            let k = choose|k: int| 0 <= k < after.len() && after[k] == other;
            if k < at {
                assert(labels[k] == other);
            } else if k > at {
                assert(labels[k - 1] == other);
            }
        }
    }
}

/// The place of `label` among `labels`.
pub fn find_slot(labels: &Vec<String>, label: &str) -> (at: usize)
    ensures
        at == slot(texts(labels@), label@),
        at <= labels.len(),
{
    let mut i: usize = 0;
    assert(texts(labels@).len() == labels@.len());
    while i < labels.len()
        invariant
            0 <= i <= labels.len(),
            texts(labels@).len() == labels@.len(),
            slot(texts(labels@), label@) == slot_from(texts(labels@), label@, i as int),
        decreases labels.len() - i,
    {
        assert(texts(labels@)[i as int] == labels@[i as int]@);
        if !text_less(labels[i].as_str(), label) {
            return i;
        }
        i += 1;
    }
    i
}

/// Puts `label` in its place among `labels`, unless it is there already.
pub fn note_label(labels: &mut Vec<String>, label: &str)
    ensures
        texts(final(labels)@) == noted(texts(old(labels)@), label@),
{
    let at = find_slot(labels, label);
    assert(texts(labels@).len() == labels@.len());
    if at < labels.len() {
        assert(texts(labels@)[at as int] == labels@[at as int]@);
        if crate::text::text_eq(labels[at].as_str(), label) {
            return;
        }
    }
    labels.insert(at, String::from_str(label));
    assert(texts(labels@) =~= texts(old(labels)@).insert(at as int, label@));
}

/// The pairs of one group, under the label of the group.
#[derive(Debug, Clone)]
pub struct Bucket {
    pub label: String,
    pub pairs: Vec<MetricPair>,
}

/// The view of a [`Bucket`].
pub struct BucketView {
    pub label: Seq<char>,
    pub pairs: Seq<MetricPair>,
}

impl View for Bucket {
    type V = BucketView;

    open spec fn view(&self) -> BucketView {
        BucketView { label: self.label@, pairs: self.pairs@ }
    }
}

/// The views of a list of buckets.
pub open spec fn bucket_views(buckets: Seq<Bucket>) -> Seq<BucketView> {
    buckets.map_values(|b: Bucket| b@)
}

/// The labels of a list of buckets.
pub open spec fn labels_of(buckets: Seq<BucketView>) -> Seq<Seq<char>> {
    buckets.map_values(|b: BucketView| b.label)
}

/// `buckets` with `pair` added to the bucket of `label`; a label without a
/// bucket gets one, in its place among the sorted labels.
pub open spec fn filed(buckets: Seq<BucketView>, label: Seq<char>, pair: MetricPair) -> Seq<
    BucketView,
> {
    let at = slot(labels_of(buckets), label);
    if 0 <= at < buckets.len() && buckets[at].label == label {
        buckets.update(at, BucketView { label: label, pairs: buckets[at].pairs.push(pair) })
    } else if 0 <= at <= buckets.len() {
        buckets.insert(at, BucketView { label: label, pairs: seq![pair] })
    } else {
        buckets
    }
}

/// The number of pairs in all buckets together.
pub open spec fn pairs_in(buckets: Seq<BucketView>) -> nat
    decreases buckets.len(),
{
    if buckets.len() == 0 {
        0
    } else {
        pairs_in(buckets.drop_last()) + buckets.last().pairs.len()
    }
}

/// Replacing one bucket changes the number of pairs by the difference of
/// the two.
pub proof fn lemma_pairs_in_update(buckets: Seq<BucketView>, at: int, bucket: BucketView)
    requires
        0 <= at < buckets.len(),
    ensures
        pairs_in(buckets.update(at, bucket)) + buckets[at].pairs.len() == pairs_in(buckets)
            + bucket.pairs.len(),
    decreases buckets.len(),
{
    let after = buckets.update(at, bucket);
    if at == buckets.len() - 1 {
        assert(after.drop_last() =~= buckets.drop_last());
    } else {
        assert(after.drop_last() =~= buckets.drop_last().update(at, bucket));
        lemma_pairs_in_update(buckets.drop_last(), at, bucket);
    }
}

/// A new bucket adds its pairs to the number of pairs.
pub proof fn lemma_pairs_in_insert(buckets: Seq<BucketView>, at: int, bucket: BucketView)
    requires
        0 <= at <= buckets.len(),
    ensures
        pairs_in(buckets.insert(at, bucket)) == pairs_in(buckets) + bucket.pairs.len(),
    decreases buckets.len(),
{
    let after = buckets.insert(at, bucket);
    if at == buckets.len() {
        assert(after.drop_last() =~= buckets);
    } else {
        assert(after.drop_last() =~= buckets.drop_last().insert(at, bucket));
        assert(after.last() == buckets.last());
        lemma_pairs_in_insert(buckets.drop_last(), at, bucket);
    }
}

/// Filing a pair keeps the labels of the buckets sorted and adds one to the
/// number of pairs.
pub proof fn lemma_filed(buckets: Seq<BucketView>, label: Seq<char>, pair: MetricPair)
    requires
        strictly_sorted(labels_of(buckets)),
    ensures
        strictly_sorted(labels_of(filed(buckets, label, pair))),
        pairs_in(filed(buckets, label, pair)) == pairs_in(buckets) + 1,
        labels_of(filed(buckets, label, pair)) == noted(labels_of(buckets), label),
{
    let labels = labels_of(buckets);
    lemma_slot(labels, label, 0);
    lemma_noted_sorted(labels, label);
    let at = slot(labels, label);
    let after = filed(buckets, label, pair);
    if at < buckets.len() && buckets[at].label == label {
        assert(labels[at] == label);
        assert(labels_of(after) =~= labels);
        lemma_pairs_in_update(
            buckets,
            at,
            BucketView { label: label, pairs: buckets[at].pairs.push(pair) },
        );
    } else {
        if at < buckets.len() {
            assert(labels[at] == buckets[at].label);
        }
        assert(labels_of(after) =~= labels.insert(at, label));
        lemma_pairs_in_insert(buckets, at, BucketView { label: label, pairs: seq![pair] });
    }
}

/// The place of `label` among the labels of `buckets`.
fn find_bucket(buckets: &Vec<Bucket>, label: &str) -> (at: usize)
    ensures
        at == slot(labels_of(bucket_views(buckets@)), label@),
        at <= buckets.len(),
{
    let ghost labels = labels_of(bucket_views(buckets@));
    let mut i: usize = 0;
    while i < buckets.len()
        invariant
            0 <= i <= buckets.len(),
            labels == labels_of(bucket_views(buckets@)),
            labels.len() == buckets@.len(),
            slot(labels, label@) == slot_from(labels, label@, i as int),
        decreases buckets.len() - i,
    {
        assert(labels[i as int] == buckets@[i as int].label@);
        if !text_less(buckets[i].label.as_str(), label) {
            return i;
        }
        i += 1;
    }
    i
}

/// Adds `pair` to the bucket of `label`.
pub fn file_pair(buckets: &mut Vec<Bucket>, label: &str, pair: MetricPair)
    ensures
        bucket_views(final(buckets)@) == filed(bucket_views(old(buckets)@), label@, pair),
{
    let at = find_bucket(buckets, label);
    let ghost before = bucket_views(buckets@);
    if at < buckets.len() {
        assert(before[at as int].label == buckets@[at as int].label@);
        if crate::text::text_eq(buckets[at].label.as_str(), label) {
            buckets[at].pairs.push(pair);
            assert(bucket_views(buckets@) =~= filed(before, label@, pair));
            return;
        }
    }
    let mut pairs: Vec<MetricPair> = Vec::new();
    pairs.push(pair);
    assert(pairs@ =~= seq![pair]);
    buckets.insert(at, Bucket { label: String::from_str(label), pairs });
    assert(bucket_views(buckets@) =~= filed(before, label@, pair));
}

/// One line of the table of issues.
#[derive(Debug, Clone)]
pub struct IssueResult {
    pub id: String,
    pub language: String,
    pub size: String,
    pub control_tool_calls: u32,
    pub fmm_tool_calls: u32,
    /// The cost of the baseline variant, as the bit pattern of a double.
    pub control_cost_bits: u64,
    pub fmm_cost_bits: u64,
    /// The grade of the baseline variant, `-` where the run was not scored.
    pub control_grade: String,
    pub fmm_grade: String,
}

/// The view of an [`IssueResult`].
pub struct IssueResultView {
    pub id: Seq<char>,
    pub language: Seq<char>,
    pub size: Seq<char>,
    pub control_tool_calls: u32,
    pub fmm_tool_calls: u32,
    pub control_cost_bits: u64,
    pub fmm_cost_bits: u64,
    pub control_grade: Seq<char>,
    pub fmm_grade: Seq<char>,
}

impl View for IssueResult {
    type V = IssueResultView;

    open spec fn view(&self) -> IssueResultView {
        IssueResultView {
            id: self.id@,
            language: self.language@,
            size: self.size@,
            control_tool_calls: self.control_tool_calls,
            fmm_tool_calls: self.fmm_tool_calls,
            control_cost_bits: self.control_cost_bits,
            fmm_cost_bits: self.fmm_cost_bits,
            control_grade: self.control_grade@,
            fmm_grade: self.fmm_grade@,
        }
    }
}

/// The views of a list of issue results.
pub open spec fn issue_views(rows: Seq<IssueResult>) -> Seq<IssueResultView> {
    rows.map_values(|r: IssueResult| r@)
}

/// The grade that is shown for a run with the scores `eval`.
pub open spec fn grade_shown(eval: Option<EvalScores>) -> Seq<char> {
    match eval {
        Some(scores) => scores.grade@,
        None => "-"@,
    }
}

/// The line of the table of issues for one task of the entry `entry`.
pub open spec fn issue_result_of(entry: CorpusEntry, t: TaskComparison) -> IssueResultView {
    IssueResultView {
        id: entry.id@,
        language: entry.language@,
        size: entry.size@,
        control_tool_calls: t.control.tool_calls,
        fmm_tool_calls: t.fmm.tool_calls,
        control_cost_bits: t.control.total_cost_usd_bits,
        fmm_cost_bits: t.fmm.total_cost_usd_bits,
        control_grade: grade_shown(t.control_eval),
        fmm_grade: grade_shown(t.fmm_eval),
    }
}

/// The grouped results of a batch.
#[derive(Debug, Clone)]
pub struct AggregateReport {
    pub model: String,
    pub runs_per_issue: u32,
    /// The issues that were attempted.
    pub issues_total: usize,
    /// The issues that were completed.
    pub issues_completed: usize,
    /// The languages of the corpus, sorted, each once.
    pub languages: Vec<String>,
    /// The pairs of all tasks, in order.
    pub pairs: Vec<MetricPair>,
    /// The pairs by language, sorted by language.
    pub by_language: Vec<Bucket>,
    /// The pairs by size category, sorted by category.
    pub by_size: Vec<Bucket>,
    /// One line per task, in order.
    pub per_issue: Vec<IssueResult>,
}

/// The groups of a batch, as the fold over its reports builds them.
pub struct Groups {
    pub languages: Seq<Seq<char>>,
    pub pairs: Seq<MetricPair>,
    pub by_language: Seq<BucketView>,
    pub by_size: Seq<BucketView>,
    pub per_issue: Seq<IssueResultView>,
}

/// The groups before any report.
pub open spec fn no_groups() -> Groups {
    Groups {
        languages: Seq::empty(),
        pairs: Seq::empty(),
        by_language: Seq::empty(),
        by_size: Seq::empty(),
        per_issue: Seq::empty(),
    }
}

/// The groups after one task of the entry `entry`.
pub open spec fn after_task(g: Groups, entry: CorpusEntry, t: TaskComparison) -> Groups {
    Groups {
        languages: g.languages,
        pairs: g.pairs.push(pair_of(t)),
        by_language: filed(g.by_language, entry.language@, pair_of(t)),
        by_size: filed(g.by_size, entry.size@, pair_of(t)),
        per_issue: g.per_issue.push(issue_result_of(entry, t)),
    }
}

/// The groups after the tasks `tasks` of the entry `entry`, in order.
pub open spec fn after_tasks(g: Groups, entry: CorpusEntry, tasks: Seq<TaskComparison>) -> Groups
    decreases tasks.len(),
{
    if tasks.len() == 0 {
        g
    } else {
        after_task(after_tasks(g, entry, tasks.drop_last()), entry, tasks.last())
    }
}

/// The groups after the report of one entry: the language of the entry is
/// noted, also where the report has no task.
pub open spec fn after_report(g: Groups, entry: CorpusEntry, report: ComparisonReport) -> Groups {
    after_tasks(
        Groups { languages: noted(g.languages, entry.language@), ..g },
        entry,
        report.task_results@,
    )
}

/// The groups after the reports `reports`, in order.
pub open spec fn after_reports(g: Groups, reports: Seq<(CorpusEntry, ComparisonReport)>) -> Groups
    decreases reports.len(),
{
    if reports.len() == 0 {
        g
    } else {
        after_report(after_reports(g, reports.drop_last()), reports.last().0, reports.last().1)
    }
}

/// The groups of a batch with the reports `reports`.
pub open spec fn groups_of(reports: Seq<(CorpusEntry, ComparisonReport)>) -> Groups {
    after_reports(no_groups(), reports)
}

/// Groups as a fold keeps them: languages and bucket labels are sorted and
/// occur once, and every pair is in one bucket of each kind.
pub open spec fn well_grouped(g: Groups) -> bool {
    &&& strictly_sorted(g.languages)
    &&& strictly_sorted(labels_of(g.by_language))
    &&& strictly_sorted(labels_of(g.by_size))
    &&& pairs_in(g.by_language) == g.pairs.len()
    &&& pairs_in(g.by_size) == g.pairs.len()
    &&& g.per_issue.len() == g.pairs.len()
    &&& forall|label: Seq<char>|
        labels_of(g.by_language).contains(label) ==> g.languages.contains(label)
}

/// One more task keeps groups well grouped, where the language of the
/// entry has been noted.
pub proof fn lemma_after_task_well_grouped(g: Groups, entry: CorpusEntry, t: TaskComparison)
    requires
        well_grouped(g),
        g.languages.contains(entry.language@),
    ensures
        well_grouped(after_task(g, entry, t)),
        after_task(g, entry, t).languages == g.languages,
{
    lemma_filed(g.by_language, entry.language@, pair_of(t));
    lemma_filed(g.by_size, entry.size@, pair_of(t));
    lemma_noted_sorted(labels_of(g.by_language), entry.language@);
}

/// The tasks of one entry keep groups well grouped.
pub proof fn lemma_after_tasks_well_grouped(
    g: Groups,
    entry: CorpusEntry,
    tasks: Seq<TaskComparison>,
)
    requires
        well_grouped(g),
        g.languages.contains(entry.language@),
    ensures
        well_grouped(after_tasks(g, entry, tasks)),
        after_tasks(g, entry, tasks).languages == g.languages,
    decreases tasks.len(),
{
    if tasks.len() > 0 {
        lemma_after_tasks_well_grouped(g, entry, tasks.drop_last());
        lemma_after_task_well_grouped(
            after_tasks(g, entry, tasks.drop_last()),
            entry,
            tasks.last(),
        );
    }
}

/// The groups of any batch are well grouped: its languages and the labels
/// of its buckets are sorted and occur once, every pair is in exactly one
/// bucket of each kind, and there is one line per pair.
pub proof fn lemma_groups_well_grouped(reports: Seq<(CorpusEntry, ComparisonReport)>)
    ensures
        well_grouped(groups_of(reports)),
    decreases reports.len(),
{
    if reports.len() > 0 {
        lemma_groups_well_grouped(reports.drop_last());
        let g = groups_of(reports.drop_last());
        let entry = reports.last().0;
        lemma_noted_sorted(g.languages, entry.language@);
        let g1 = Groups { languages: noted(g.languages, entry.language@), ..g };
        assert forall|label: Seq<char>| labels_of(g1.by_language).contains(label) implies g1
            .languages.contains(label) by {
            assert(g.languages.contains(label));
        }
        lemma_after_tasks_well_grouped(g1, entry, reports.last().1.task_results@);
    } else {
        assert(labels_of(no_groups().by_language) =~= Seq::empty());
        assert(labels_of(no_groups().by_size) =~= Seq::empty());
    }
}

impl AggregateReport {
    /// The groups that the report holds.
    pub open spec fn groups(&self) -> Groups {
        Groups {
            languages: texts(self.languages@),
            pairs: self.pairs@,
            by_language: bucket_views(self.by_language@),
            by_size: bucket_views(self.by_size@),
            per_issue: issue_views(self.per_issue@),
        }
    }

    /// A report without results.
    fn empty(model: &str, runs_per_issue: u32, issues: usize) -> (report: AggregateReport)
        ensures
            report.groups() == no_groups(),
            report.model@ == model@,
            report.runs_per_issue == runs_per_issue,
            report.issues_total == issues,
            report.issues_completed == issues,
    {
        let report = AggregateReport {
            model: String::from_str(model),
            runs_per_issue,
            issues_total: issues,
            issues_completed: issues,
            languages: Vec::new(),
            pairs: Vec::new(),
            by_language: Vec::new(),
            by_size: Vec::new(),
            per_issue: Vec::new(),
        };
        assert(report.groups().languages =~= Seq::empty());
        assert(report.groups().by_language =~= Seq::empty());
        assert(report.groups().by_size =~= Seq::empty());
        assert(report.groups().per_issue =~= Seq::empty());
        report
    }

    /// Takes one task of the entry `entry` into the report.
    fn add_task(&mut self, entry: &CorpusEntry, t: &TaskComparison)
        ensures
            final(self).groups() == after_task(old(self).groups(), *entry, *t),
            final(self).model == old(self).model,
            final(self).runs_per_issue == old(self).runs_per_issue,
            final(self).issues_total == old(self).issues_total,
            final(self).issues_completed == old(self).issues_completed,
    {
        let pair = metric_pair(t);
        self.pairs.push(pair);
        file_pair(&mut self.by_language, entry.language.as_str(), pair);
        file_pair(&mut self.by_size, entry.size.as_str(), pair);
        let control_grade = match &t.control_eval {
            Some(scores) => String::from_str(scores.grade.as_str()),
            None => String::from_str("-"),
        };
        let fmm_grade = match &t.fmm_eval {
            Some(scores) => String::from_str(scores.grade.as_str()),
            None => String::from_str("-"),
        };
        let ghost rows = issue_views(self.per_issue@);
        self.per_issue.push(
            IssueResult {
                id: String::from_str(entry.id.as_str()),
                language: String::from_str(entry.language.as_str()),
                size: String::from_str(entry.size.as_str()),
                control_tool_calls: pair.control_tools,
                fmm_tool_calls: pair.fmm_tools,
                control_cost_bits: pair.control_cost_bits,
                fmm_cost_bits: pair.fmm_cost_bits,
                control_grade,
                fmm_grade,
            },
        );
        assert(issue_views(self.per_issue@) =~= rows.push(issue_result_of(*entry, *t)));
    }

    /// Groups the results of a batch. Every task of every report gives one
    /// pair, which is kept with all pairs, with those of the language of
    /// its entry and with those of the size category of its entry, and one
    /// line of the table of issues. The languages of all entries are
    /// listed, sorted, each once.
    pub fn from_reports(
        reports: &Vec<(CorpusEntry, ComparisonReport)>,
        model: &str,
        runs_per_issue: u32,
    ) -> (report: AggregateReport)
        ensures
            report.groups() == groups_of(reports@),
            well_grouped(report.groups()),
            report.model@ == model@,
            report.runs_per_issue == runs_per_issue,
            report.issues_total == reports.len(),
            report.issues_completed == reports.len(),
    {
        let mut report = AggregateReport::empty(model, runs_per_issue, reports.len());
        let mut i: usize = 0;
        assert(reports@.take(0) =~= Seq::empty());
        while i < reports.len()
            invariant
                0 <= i <= reports.len(),
                report.groups() == groups_of(reports@.take(i as int)),
                report.model@ == model@,
                report.runs_per_issue == runs_per_issue,
                report.issues_total == reports.len(),
                report.issues_completed == reports.len(),
            decreases reports.len() - i,
        {
            let entry = &reports[i].0;
            let tasks = &reports[i].1.task_results;
            assert(reports@.take(i + 1).drop_last() =~= reports@.take(i as int));
            note_label(&mut report.languages, entry.language.as_str());
            let ghost noted_groups = report.groups();
            let mut k: usize = 0;
            assert(tasks@.take(0) =~= Seq::empty());
            while k < tasks.len()
                invariant
                    0 <= k <= tasks.len(),
                    report.groups() == after_tasks(noted_groups, *entry, tasks@.take(k as int)),
                    report.model@ == model@,
                    report.runs_per_issue == runs_per_issue,
                    report.issues_total == reports.len(),
                    report.issues_completed == reports.len(),
                decreases tasks.len() - k,
            {
                assert(tasks@.take(k + 1).drop_last() =~= tasks@.take(k as int));
                report.add_task(entry, &tasks[k]);
                k += 1;
            }
            assert(tasks@.take(k as int) =~= tasks@);
            i += 1;
        }
        assert(reports@.take(i as int) =~= reports@);
        proof {
            lemma_groups_well_grouped(reports@);
        }
        report
    }
}

/// The figures of one metric, as text: the mean of each variant, the
/// difference in percent and the p-value.
#[derive(Debug, Clone)]
pub struct MetricCells {
    pub control: String,
    pub fmm: String,
    pub delta: String,
    pub p_value: String,
}

/// The figures of one group, as text: the mean number of tool calls of
/// each variant and the difference in percent.
#[derive(Debug, Clone)]
pub struct GroupCells {
    pub control: String,
    pub fmm: String,
    pub delta: String,
}

/// The figures of a report, as text. The caller draws them from the pairs
/// of the report and writes each in the form in which it is to be shown.
#[derive(Debug, Clone)]
pub struct Figures {
    pub total_cost: String,
    pub tool_calls: MetricCells,
    pub tokens: MetricCells,
    pub cost: MetricCells,
    pub duration: MetricCells,
    pub read_calls: MetricCells,
    /// One per bucket of `by_language`, in the same order.
    pub by_language: Vec<GroupCells>,
    /// One per bucket of `by_size`, in the same order.
    pub by_size: Vec<GroupCells>,
    /// The difference in tool calls of each line of `per_issue`, in
    /// percent.
    pub per_issue_delta: Vec<String>,
}

/// The view of a [`MetricCells`].
pub struct MetricCellsView {
    pub control: Seq<char>,
    pub fmm: Seq<char>,
    pub delta: Seq<char>,
    pub p_value: Seq<char>,
}

/// The view of a [`GroupCells`].
pub struct GroupCellsView {
    pub control: Seq<char>,
    pub fmm: Seq<char>,
    pub delta: Seq<char>,
}

impl View for MetricCells {
    type V = MetricCellsView;

    open spec fn view(&self) -> MetricCellsView {
        MetricCellsView {
            control: self.control@,
            fmm: self.fmm@,
            delta: self.delta@,
            p_value: self.p_value@,
        }
    }
}

impl View for GroupCells {
    type V = GroupCellsView;

    open spec fn view(&self) -> GroupCellsView {
        GroupCellsView { control: self.control@, fmm: self.fmm@, delta: self.delta@ }
    }
}

/// The views of a list of group figures.
pub open spec fn cell_views(cells: Seq<GroupCells>) -> Seq<GroupCellsView> {
    cells.map_values(|c: GroupCells| c@)
}

/// The figures of the group at index `at`; dashes where the list has none.
pub open spec fn group_cells_at(cells: Seq<GroupCellsView>, at: int) -> GroupCellsView {
    if 0 <= at < cells.len() {
        cells[at]
    } else {
        GroupCellsView { control: "-"@, fmm: "-"@, delta: "-"@ }
    }
}

/// The text at index `at`; a dash where the list has none.
pub open spec fn text_at(list: Seq<Seq<char>>, at: int) -> Seq<char> {
    if 0 <= at < list.len() {
        list[at]
    } else {
        "-"@
    }
}

/// The line of the summary table for the metric `label`.
pub open spec fn metric_row(label: Seq<char>, cells: MetricCellsView) -> Seq<char> {
    "| "@ + label + " | "@ + cells.control + " | "@ + cells.fmm + " | "@ + cells.delta + "% | "@
        + cells.p_value + " |\n"@
}

/// The line of a group table for the group `label` of `n` pairs.
pub open spec fn group_row(label: Seq<char>, n: nat, cells: GroupCellsView) -> Seq<char> {
    "| "@ + label + " | "@ + decimal(n) + " | "@ + cells.control + " | "@ + cells.fmm + " | "@
        + cells.delta + "% |\n"@
}

/// The line of the table of issues for `row`.
pub open spec fn issue_row(row: IssueResultView, delta: Seq<char>) -> Seq<char> {
    "| "@ + row.id + " | "@ + row.language + " | "@ + decimal(row.control_tool_calls as nat)
        + " | "@ + decimal(row.fmm_tool_calls as nat) + " | "@ + delta + "% | "@
        + row.control_grade + " | "@ + row.fmm_grade + " |\n"@
}

/// The lines of a group table for the first `n` of `buckets`.
pub open spec fn group_rows(buckets: Seq<BucketView>, cells: Seq<GroupCellsView>, n: int) -> Seq<
    char,
>
    decreases n,
{
    if n <= 0 {
        Seq::empty()
    } else {
        group_rows(buckets, cells, n - 1) + group_row(
            buckets[n - 1].label,
            buckets[n - 1].pairs.len(),
            group_cells_at(cells, n - 1),
        )
    }
}

/// The lines of the table of issues for the first `n` of `rows`.
pub open spec fn issue_rows(rows: Seq<IssueResultView>, deltas: Seq<Seq<char>>, n: int) -> Seq<
    char,
>
    decreases n,
{
    if n <= 0 {
        Seq::empty()
    } else {
        issue_rows(rows, deltas, n - 1) + issue_row(rows[n - 1], text_at(deltas, n - 1))
    }
}

/// The head of the rendered report: the title, the size of the corpus, the
/// model, the runs per issue and the total cost.
pub open spec fn head_text(
    issues_total: nat,
    language_count: nat,
    model: Seq<char>,
    runs_per_issue: u32,
    total_cost: Seq<char>,
) -> Seq<char> {
    "# fmm A/B Benchmark Results\n\n"@ + "**Corpus:** "@ + decimal(issues_total)
        + " issues across "@ + decimal(language_count) + " languages\n"@ + "**Model:** "@ + model
        + " | **Runs per issue:** "@ + decimal(runs_per_issue as nat) + "\n"@
        + "**Total cost:** $"@ + total_cost + "\n\n"@
}

/// The summary table: one line per metric.
pub open spec fn summary_text(
    tool_calls: MetricCellsView,
    tokens: MetricCellsView,
    cost: MetricCellsView,
    duration: MetricCellsView,
    read_calls: MetricCellsView,
) -> Seq<char> {
    "## Summary\n\n"@ + "| Metric | Control (avg) | FMM (avg) | Delta | p-value |\n"@
        + "|--------|--------------|-----------|-------|---------|\n"@ + metric_row(
        "Tool calls"@,
        tool_calls,
    ) + metric_row("Tokens (k)"@, tokens) + metric_row("Cost ($)"@, cost) + metric_row(
        "Duration (ms)"@,
        duration,
    ) + metric_row("Read calls"@, read_calls) + "\n"@
}

/// A group table under the heading `heading`, or nothing where there is no
/// group.
pub open spec fn section_text(
    heading: Seq<char>,
    buckets: Seq<BucketView>,
    cells: Seq<GroupCellsView>,
) -> Seq<char> {
    if buckets.len() == 0 {
        Seq::empty()
    } else {
        heading + group_rows(buckets, cells, buckets.len() as int) + "\n"@
    }
}

/// The heading of the table by language.
pub open spec fn language_heading() -> Seq<char> {
    "## By Language\n\n"@ + "| Language | N | Ctrl Tools | FMM Tools | Delta |\n"@
        + "|----------|---|-----------|-----------|-------|\n"@
}

/// The heading of the table by size category.
pub open spec fn size_heading() -> Seq<char> {
    "## By Codebase Size\n\n"@ + "| Size | N | Ctrl Tools | FMM Tools | Delta |\n"@
        + "|------|---|-----------|-----------|-------|\n"@
}

/// The table of issues.
pub open spec fn issues_text(rows: Seq<IssueResultView>, deltas: Seq<Seq<char>>) -> Seq<char> {
    "## Per-Issue Results\n\n"@
        + "| Issue | Language | Ctrl Tools | FMM Tools | Delta | Ctrl Grade | FMM Grade |\n"@
        + "|-------|----------|-----------|-----------|-------|------------|----------|\n"@
        + issue_rows(rows, deltas, rows.len() as int)
}

impl Figures {
    /// The figures for a report without results: every cell a dash, the
    /// total cost `0.00`.
    pub fn blank() -> (figures: Figures)
        ensures
            figures.total_cost@ == "0.00"@,
            figures.tool_calls@ == dashes(),
            figures.tokens@ == dashes(),
            figures.cost@ == dashes(),
            figures.duration@ == dashes(),
            figures.read_calls@ == dashes(),
            figures.by_language@.len() == 0,
            figures.by_size@.len() == 0,
            figures.per_issue_delta@.len() == 0,
    {
        Figures {
            total_cost: String::from_str("0.00"),
            tool_calls: dash_cells(),
            tokens: dash_cells(),
            cost: dash_cells(),
            duration: dash_cells(),
            read_calls: dash_cells(),
            by_language: Vec::new(),
            by_size: Vec::new(),
            per_issue_delta: Vec::new(),
        }
    }
}

/// Cells that hold a dash each.
pub open spec fn dashes() -> MetricCellsView {
    MetricCellsView { control: "-"@, fmm: "-"@, delta: "-"@, p_value: "-"@ }
}

/// Cells that hold a dash each.
fn dash_cells() -> (cells: MetricCells)
    ensures
        cells@ == dashes(),
{
    MetricCells {
        control: String::from_str("-"),
        fmm: String::from_str("-"),
        delta: String::from_str("-"),
        p_value: String::from_str("-"),
    }
}

/// Appends the line of the summary table for the metric `label`.
fn push_metric_row(out: &mut String, label: &str, cells: &MetricCells)
    ensures
        final(out)@ == old(out)@ + metric_row(label@, cells@),
{
    let mut row = String::from_str("| ");
    push_text(&mut row, label);
    push_text(&mut row, " | ");
    push_text(&mut row, cells.control.as_str());
    push_text(&mut row, " | ");
    push_text(&mut row, cells.fmm.as_str());
    push_text(&mut row, " | ");
    push_text(&mut row, cells.delta.as_str());
    push_text(&mut row, "% | ");
    push_text(&mut row, cells.p_value.as_str());
    push_text(&mut row, " |\n");
    push_text(out, row.as_str());
}

/// Appends the line of a group table for `bucket`.
fn push_group_row(out: &mut String, bucket: &Bucket, control: &str, fmm: &str, delta: &str)
    ensures
        final(out)@ == old(out)@ + group_row(
            bucket.label@,
            bucket.pairs@.len(),
            GroupCellsView { control: control@, fmm: fmm@, delta: delta@ },
        ),
{
    let mut row = String::from_str("| ");
    push_text(&mut row, bucket.label.as_str());
    push_text(&mut row, " | ");
    let mut count = String::new();
    push_decimal(&mut count, bucket.pairs.len() as u64);
    assert(count@ =~= decimal(bucket.pairs@.len()));
    push_text(&mut row, count.as_str());
    push_text(&mut row, " | ");
    push_text(&mut row, control);
    push_text(&mut row, " | ");
    push_text(&mut row, fmm);
    push_text(&mut row, " | ");
    push_text(&mut row, delta);
    push_text(&mut row, "% |\n");
    push_text(out, row.as_str());
}

/// Appends the line of the table of issues for `issue`.
fn push_issue_row(out: &mut String, issue: &IssueResult, delta: &str)
    ensures
        final(out)@ == old(out)@ + issue_row(issue@, delta@),
{
    let mut row = String::from_str("| ");
    push_text(&mut row, issue.id.as_str());
    push_text(&mut row, " | ");
    push_text(&mut row, issue.language.as_str());
    push_text(&mut row, " | ");
    let mut control = String::new();
    push_decimal(&mut control, issue.control_tool_calls as u64);
    assert(control@ =~= decimal(issue.control_tool_calls as nat));
    push_text(&mut row, control.as_str());
    push_text(&mut row, " | ");
    let mut fmm = String::new();
    push_decimal(&mut fmm, issue.fmm_tool_calls as u64);
    assert(fmm@ =~= decimal(issue.fmm_tool_calls as nat));
    push_text(&mut row, fmm.as_str());
    push_text(&mut row, " | ");
    push_text(&mut row, delta);
    push_text(&mut row, "% | ");
    push_text(&mut row, issue.control_grade.as_str());
    push_text(&mut row, " | ");
    push_text(&mut row, issue.fmm_grade.as_str());
    push_text(&mut row, " |\n");
    push_text(out, row.as_str());
}

/// Appends a group table under the heading `heading`.
fn push_section(out: &mut String, heading: &str, buckets: &Vec<Bucket>, cells: &Vec<GroupCells>)
    ensures
        final(out)@ == old(out)@ + section_text(
            heading@,
            bucket_views(buckets@),
            cell_views(cells@),
        ),
{
    if buckets.len() == 0 {
        assert(old(out)@ + Seq::<char>::empty() =~= old(out)@);
        return;
    }
    let ghost views = bucket_views(buckets@);
    let ghost figures = cell_views(cells@);
    let mut rows = String::new();
    let mut i: usize = 0;
    while i < buckets.len()
        invariant
            0 <= i <= buckets.len(),
            views == bucket_views(buckets@),
            figures == cell_views(cells@),
            rows@ == group_rows(views, figures, i as int),
        decreases buckets.len() - i,
    {
        assert(views[i as int] == buckets@[i as int]@);
        if i < cells.len() {
            assert(figures[i as int] == cells@[i as int]@);
            push_group_row(
                &mut rows,
                &buckets[i],
                cells[i].control.as_str(),
                cells[i].fmm.as_str(),
                cells[i].delta.as_str(),
            );
        } else {
            push_group_row(&mut rows, &buckets[i], "-", "-", "-");
        }
        i += 1;
    }
    push_text(out, heading);
    push_text(out, rows.as_str());
    push_text(out, "\n");
    assert(out@ =~= old(out)@ + (heading@ + group_rows(views, figures, buckets.len() as int)
        + "\n"@));
}

impl AggregateReport {
    /// The report as it is rendered with the figures `figures`.
    pub open spec fn markdown(&self, figures: Figures) -> Seq<char> {
        head_text(
            self.issues_total as nat,
            self.languages@.len(),
            self.model@,
            self.runs_per_issue,
            figures.total_cost@,
        ) + summary_text(
            figures.tool_calls@,
            figures.tokens@,
            figures.cost@,
            figures.duration@,
            figures.read_calls@,
        ) + section_text(
            language_heading(),
            bucket_views(self.by_language@),
            cell_views(figures.by_language@),
        ) + section_text(
            size_heading(),
            bucket_views(self.by_size@),
            cell_views(figures.by_size@),
        ) + issues_text(issue_views(self.per_issue@), texts(figures.per_issue_delta@))
    }

    /// Renders the report: its head, the summary table, a table by
    /// language and one by size category where there are groups, and the
    /// table of issues. A report without results renders to the head, the
    /// summary table and the heading of the table of issues. A group or an
    /// issue for which `figures` has no entry is shown with dashes.
    pub fn to_markdown(&self, figures: &Figures) -> (md: String)
        ensures
            md@ == self.markdown(*figures),
    {
        let mut md = String::from_str("# fmm A/B Benchmark Results\n\n");
        push_text(&mut md, "**Corpus:** ");
        let mut n = String::new();
        push_decimal(&mut n, self.issues_total as u64);
        assert(n@ =~= decimal(self.issues_total as nat));
        push_text(&mut md, n.as_str());
        push_text(&mut md, " issues across ");
        let mut count = String::new();
        push_decimal(&mut count, self.languages.len() as u64);
        assert(count@ =~= decimal(self.languages@.len()));
        push_text(&mut md, count.as_str());
        push_text(&mut md, " languages\n");
        push_text(&mut md, "**Model:** ");
        push_text(&mut md, self.model.as_str());
        push_text(&mut md, " | **Runs per issue:** ");
        let mut runs = String::new();
        push_decimal(&mut runs, self.runs_per_issue as u64);
        assert(runs@ =~= decimal(self.runs_per_issue as nat));
        push_text(&mut md, runs.as_str());
        push_text(&mut md, "\n");
        push_text(&mut md, "**Total cost:** $");
        push_text(&mut md, figures.total_cost.as_str());
        push_text(&mut md, "\n\n");
        let ghost head = md@;
        assert(head == head_text(
            self.issues_total as nat,
            self.languages@.len(),
            self.model@,
            self.runs_per_issue,
            figures.total_cost@,
        ));

        let mut summary = String::from_str("## Summary\n\n");
        push_text(&mut summary, "| Metric | Control (avg) | FMM (avg) | Delta | p-value |\n");
        push_text(&mut summary, "|--------|--------------|-----------|-------|---------|\n");
        push_metric_row(&mut summary, "Tool calls", &figures.tool_calls);
        push_metric_row(&mut summary, "Tokens (k)", &figures.tokens);
        push_metric_row(&mut summary, "Cost ($)", &figures.cost);
        push_metric_row(&mut summary, "Duration (ms)", &figures.duration);
        push_metric_row(&mut summary, "Read calls", &figures.read_calls);
        push_text(&mut summary, "\n");
        push_text(&mut md, summary.as_str());

        let mut heading = String::from_str("## By Language\n\n");
        push_text(&mut heading, "| Language | N | Ctrl Tools | FMM Tools | Delta |\n");
        push_text(&mut heading, "|----------|---|-----------|-----------|-------|\n");
        push_section(&mut md, heading.as_str(), &self.by_language, &figures.by_language);

        let mut heading = String::from_str("## By Codebase Size\n\n");
        push_text(&mut heading, "| Size | N | Ctrl Tools | FMM Tools | Delta |\n");
        push_text(&mut heading, "|------|---|-----------|-----------|-------|\n");
        push_section(&mut md, heading.as_str(), &self.by_size, &figures.by_size);

        let ghost rows = issue_views(self.per_issue@);
        let ghost deltas = texts(figures.per_issue_delta@);
        let mut issues = String::from_str("## Per-Issue Results\n\n");
        push_text(
            &mut issues,
            "| Issue | Language | Ctrl Tools | FMM Tools | Delta | Ctrl Grade | FMM Grade |\n",
        );
        push_text(
            &mut issues,
            "|-------|----------|-----------|-----------|-------|------------|----------|\n",
        );
        let ghost issues_head = issues@;
        let mut i: usize = 0;
        assert(issues@ =~= issues_head + issue_rows(rows, deltas, 0));
        while i < self.per_issue.len()
            invariant
                0 <= i <= self.per_issue.len(),
                rows == issue_views(self.per_issue@),
                deltas == texts(figures.per_issue_delta@),
                issues@ == issues_head + issue_rows(rows, deltas, i as int),
            decreases self.per_issue.len() - i,
        {
            assert(rows[i as int] == self.per_issue@[i as int]@);
            let ghost before = issues@;
            if i < figures.per_issue_delta.len() {
                assert(deltas[i as int] == figures.per_issue_delta@[i as int]@);
                push_issue_row(&mut issues, &self.per_issue[i], figures.per_issue_delta[i].as_str());
            } else {
                push_issue_row(&mut issues, &self.per_issue[i], "-");
            }
            assert(issues@ =~= issues_head + issue_rows(rows, deltas, i + 1));
            i += 1;
        }
        push_text(&mut md, issues.as_str());
        md
    }
}

/// Every rendered report begins with the title, whatever it holds.
pub proof fn lemma_markdown_has_title(report: AggregateReport, figures: Figures)
    ensures
        crate::text::has_prefix(
            report.markdown(figures),
            "# fmm A/B Benchmark Results\n\n"@,
        ),
{
    let title = "# fmm A/B Benchmark Results\n\n"@;
    let md = report.markdown(figures);
    assert(md.subrange(0, title.len() as int) =~= title);
}

} // verus!
