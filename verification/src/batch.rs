//! The corpus of a batch run and the choices a batch makes of it.

use crate::text::{decimal, push_decimal, push_text, texts};
use vstd::prelude::*;

verus! {

/// One entry of a corpus: an issue of a repository, with what is known of
/// the repository.
#[derive(Debug, Clone)]
pub struct CorpusEntry {
    /// The identifier, `owner/repo#N`.
    pub id: String,
    /// The repository, `owner/repo`.
    pub repo: String,
    /// The issue number.
    pub issue: u32,
    /// The primary language.
    pub language: String,
    /// The size category of the codebase.
    pub size: String,
    /// The kind of issue: bugfix, feature, refactor and so on.
    pub kind: String,
    /// Whether the repository has a test suite.
    pub has_tests: bool,
    /// The files a fix is expected to touch.
    pub expected_files: Vec<String>,
    /// The complexity: simple, medium or complex.
    pub complexity: String,
    /// The estimated number of files to touch.
    pub estimated_files: u32,
    pub notes: String,
    /// The branch to clone, where it is not the default branch.
    pub branch: Option<String>,
    /// The commit to pin to.
    pub commit: Option<String>,
}

/// The size category of an entry that states none.
pub fn default_size() -> (s: String)
    ensures
        s@ == "medium"@,
{
    String::from_str("medium")
}

/// The kind of an entry that states none.
pub fn default_type() -> (s: String)
    ensures
        s@ == "bugfix"@,
{
    String::from_str("bugfix")
}

/// The complexity of an entry that states none.
pub fn default_complexity() -> (s: String)
    ensures
        s@ == "medium"@,
{
    String::from_str("medium")
}

/// Whether the issue of one entry can be reached.
#[derive(Debug, Clone)]
pub struct ValidationResult {
    pub id: String,
    pub issue_accessible: bool,
    pub issue_title: Option<String>,
    pub error: Option<String>,
}

impl ValidationResult {
    /// The result for an entry whose issue was fetched and has the title
    /// `title`.
    pub fn accessible(id: &str, title: &str) -> (r: ValidationResult)
        ensures
            r.id@ == id@,
            r.issue_accessible,
            r.issue_title matches Some(t) && t@ == title@,
            r.error is None,
    {
        ValidationResult {
            id: String::from_str(id),
            issue_accessible: true,
            issue_title: Some(String::from_str(title)),
            error: None,
        }
    }

    /// The result for an entry whose issue could not be fetched, for the
    /// reason `error`.
    pub fn inaccessible(id: &str, error: &str) -> (r: ValidationResult)
        ensures
            r.id@ == id@,
            !r.issue_accessible,
            r.issue_title is None,
            r.error matches Some(e) && e@ == error@,
    {
        ValidationResult {
            id: String::from_str(id),
            issue_accessible: false,
            issue_title: None,
            error: Some(String::from_str(error)),
        }
    }
}

/// The number of results whose issue can be reached.
pub open spec fn accessible_among(results: Seq<ValidationResult>) -> nat
    decreases results.len(),
{
    if results.len() == 0 {
        0
    } else {
        accessible_among(results.drop_last()) + if results.last().issue_accessible {
            1nat
        } else {
            0nat
        }
    }
}

/// The number of results whose issue can be reached, and the number of
/// those whose issue cannot.
pub fn count_accessible(results: &Vec<ValidationResult>) -> (r: (usize, usize))
    ensures
        r.0 == accessible_among(results@),
        r.0 + r.1 == results.len(),
{
    let mut accessible: usize = 0;
    let mut i: usize = 0;
    assert(results@.take(0) =~= Seq::empty());
    while i < results.len()
        invariant
            0 <= i <= results.len(),
            accessible == accessible_among(results@.take(i as int)),
            accessible <= i,
        decreases results.len() - i,
    {
        assert(results@.take(i + 1).drop_last() =~= results@.take(i as int));
        if results[i].issue_accessible {
            accessible += 1;
        }
        i += 1;
    }
    assert(results@.take(i as int) =~= results@);
    (accessible, results.len() - accessible)
}

/// The identifier under which the issue of an entry is fetched:
/// `repo#issue`.
pub open spec fn issue_id_of(repo: Seq<char>, issue: u32) -> Seq<char> {
    repo + "#"@ + decimal(issue as nat)
}

/// The identifier under which the issue of `entry` is fetched.
pub fn issue_id(entry: &CorpusEntry) -> (id: String)
    ensures
        id@ == issue_id_of(entry.repo@, entry.issue),
{
    let mut id = String::from_str(entry.repo.as_str());
    push_text(&mut id, "#");
    push_decimal(&mut id, entry.issue as u64);
    id
}

/// The lower case of `s`, as `str::to_lowercase` gives it.
pub uninterp spec fn lowercase_of(s: Seq<char>) -> Seq<char>;

/// `str::to_lowercase` of the standard library: the lower case of each
/// character by the Unicode tables, which depends on the text alone.
#[verifier::external_body]
pub(crate) fn to_lowercase(s: &str) -> (r: String)
    ensures
        r@ == lowercase_of(s@),
{
    s.to_lowercase()
}

/// Whether an entry whose language reads `language` in lower case passes
/// the filter `filter`, given in lower case: it does where no filter is
/// set and where the two are the same.
pub open spec fn passes(language: Seq<char>, filter: Option<Seq<char>>) -> bool {
    match filter {
        Some(f) => language == f,
        None => true,
    }
}

/// The indices of the first `n` of `languages` that pass the filter, in
/// order.
pub open spec fn selected(languages: Seq<Seq<char>>, filter: Option<Seq<char>>, n: int) -> Seq<
    usize,
>
    decreases n,
{
    if n <= 0 {
        Seq::empty()
    } else {
        let before = selected(languages, filter, n - 1);
        if passes(languages[n - 1], filter) {
            before.push((n - 1) as usize)
        } else {
            before
        }
    }
}

/// The languages of a corpus, in lower case.
pub open spec fn languages_of(corpus: Seq<CorpusEntry>) -> Seq<Seq<char>> {
    corpus.map_values(|e: CorpusEntry| lowercase_of(e.language@))
}

/// The lower case of an optional text.
pub open spec fn lowered(s: Option<&str>) -> Option<Seq<char>> {
    match s {
        Some(s) => Some(lowercase_of(s@)),
        None => None,
    }
}

/// The view of an optional text.
pub open spec fn opt_str(s: Option<&str>) -> Option<Seq<char>> {
    match s {
        Some(s) => Some(s@),
        None => None,
    }
}

/// The indices of the languages that are the same as `filter`, in order;
/// of all languages where no filter is set.
pub fn select(languages: &Vec<String>, filter: Option<&str>) -> (picked: Vec<usize>)
    ensures
        picked@ == selected(texts(languages@), opt_str(filter), languages.len() as int),
{
    let wanted: Option<String> = match filter {
        Some(f) => Some(String::from_str(f)),
        None => None,
    };
    let mut picked: Vec<usize> = Vec::new();
    let mut i: usize = 0;
    while i < languages.len()
        invariant
            0 <= i <= languages.len(),
            match wanted {
                Some(w) => filter matches Some(f) && w@ == f@,
                None => filter is None,
            },
            picked@ == selected(texts(languages@), opt_str(filter), i as int),
        decreases languages.len() - i,
    {
        assert(texts(languages@)[i as int] == languages@[i as int]@);
        let keep = match &wanted {
            Some(w) => languages[i] == *w,
            None => true,
        };
        if keep {
            picked.push(i);
        }
        i += 1;
    }
    picked
}

/// The indices of the entries of `corpus` whose language is `filter`, case
/// aside, in order; of all entries where no filter is set.
pub fn filter_by_language(corpus: &Vec<CorpusEntry>, filter: Option<&str>) -> (picked: Vec<usize>)
    ensures
        picked@ == selected(languages_of(corpus@), lowered(filter), corpus.len() as int),
{
    let mut languages: Vec<String> = Vec::new();
    let mut i: usize = 0;
    while i < corpus.len()
        invariant
            0 <= i <= corpus.len(),
            languages@.len() == i,
            forall|j: int| 0 <= j < i ==> (#[trigger] languages@[j])@ == lowercase_of(
                corpus@[j].language@,
            ),
        decreases corpus.len() - i,
    {
        languages.push(to_lowercase(corpus[i].language.as_str()));
        i += 1;
    }
    assert(texts(languages@) =~= languages_of(corpus@));
    match filter {
        Some(f) => {
            let wanted = to_lowercase(f);
            select(&languages, Some(wanted.as_str()))
        },
        None => select(&languages, None),
    }
}

/// Why a corpus is not accepted.
#[derive(Debug, Clone, Copy, PartialEq, Eq, Structural)]
pub enum CorpusError {
    /// The corpus has no entry.
    Empty,
}

/// Accepts a corpus that has at least one entry.
pub fn accept_corpus(entries: Vec<CorpusEntry>) -> (r: Result<Vec<CorpusEntry>, CorpusError>)
    ensures
        match r {
            Ok(accepted) => entries.len() > 0 && accepted == entries,
            Err(e) => entries.len() == 0 && e == CorpusError::Empty,
        },
{
    if entries.len() == 0 {
        Err(CorpusError::Empty)
    } else {
        Ok(entries)
    }
}

/// The bit pattern of the double 50.0.
pub const FIFTY_DOLLAR_BITS: u64 = 0x4049_0000_0000_0000;

/// The options of a batch run.
#[derive(Debug, Clone)]
pub struct BatchOptions {
    /// The most that the batch may spend, in dollars, as the bit pattern of
    /// a double.
    pub budget_bits: u64,
    /// The runs per issue.
    pub runs: u32,
    /// The language to which the batch is limited.
    pub filter: Option<String>,
    /// Whether results in the cache are used.
    pub resume: bool,
    /// The directory of the report.
    pub output: Option<String>,
    pub model: String,
}

impl BatchOptions {
    /// The options of a batch that states none: a budget of fifty dollars,
    /// one run per issue, every language, nothing taken from the cache, no
    /// report written, the model `sonnet`.
    pub fn new() -> (options: BatchOptions)
        ensures
            options.budget_bits == FIFTY_DOLLAR_BITS,
            options.runs == 1,
            options.filter is None,
            !options.resume,
            options.output is None,
            options.model@ == "sonnet"@,
    {
        BatchOptions {
            budget_bits: FIFTY_DOLLAR_BITS,
            runs: 1,
            filter: None,
            resume: false,
            output: None,
            model: String::from_str("sonnet"),
        }
    }
}

impl Default for BatchOptions {
    fn default() -> (options: BatchOptions)
        ensures
            options.budget_bits == FIFTY_DOLLAR_BITS,
            options.runs == 1,
            options.filter is None,
            !options.resume,
            options.output is None,
            options.model@ == "sonnet"@,
    {
        BatchOptions::new()
    }
}

} // verus!
