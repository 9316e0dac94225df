//! Issue references: the forms in which one is written, and the prompt made
//! from an issue.

use crate::json::{decode, json_of, text_at, text_member, Json};
use crate::text::{
    all_name_chars, chars_all_name_chars, chars_contain, chars_of, chars_start_with, contains,
    contains_text, decimal, find_char, find_from, has_prefix, parse_u64, parsed_unsigned,
    push_decimal, push_text, split, split_chars, string_of, string_of_range, text_eq, texts,
    trim_chars, trimmed,
};
use vstd::prelude::*;

verus! {

/// A reference to an issue of a repository.
#[derive(Debug, Clone)]
pub struct IssueRef {
    pub owner: String,
    pub repo: String,
    pub number: u64,
}

/// The view of an [`IssueRef`].
pub struct IssueRefView {
    pub owner: Seq<char>,
    pub repo: Seq<char>,
    pub number: u64,
}

impl View for IssueRef {
    type V = IssueRefView;

    open spec fn view(&self) -> IssueRefView {
        IssueRefView { owner: self.owner@, repo: self.repo@, number: self.number }
    }
}

/// The form `owner/repo`.
pub open spec fn slug_of(r: IssueRefView) -> Seq<char> {
    r.owner + "/"@ + r.repo
}

/// The form `owner/repo#N`.
pub open spec fn short_id_of(r: IssueRefView) -> Seq<char> {
    slug_of(r) + "#"@ + decimal(r.number as nat)
}

/// The address from which the repository is cloned.
pub open spec fn clone_url_of(r: IssueRefView) -> Seq<char> {
    "https://github.com/"@ + r.owner + "/"@ + r.repo
}

impl IssueRef {
    /// The repository, as `owner/repo`.
    pub fn repo_slug(&self) -> (s: String)
        ensures
            s@ == slug_of(self@),
    {
        let mut s = String::from_str(self.owner.as_str());
        push_text(&mut s, "/");
        push_text(&mut s, self.repo.as_str());
        s
    }

    /// The short form, `owner/repo#N`.
    pub fn short_id(&self) -> (s: String)
        ensures
            s@ == short_id_of(self@),
    {
        let mut s = self.repo_slug();
        push_text(&mut s, "#");
        push_decimal(&mut s, self.number);
        s
    }

    /// The HTTPS address from which the repository is cloned.
    pub fn clone_url(&self) -> (s: String)
        ensures
            s@ == clone_url_of(self@),
    {
        let mut s = String::from_str("https://github.com/");
        push_text(&mut s, self.owner.as_str());
        push_text(&mut s, "/");
        push_text(&mut s, self.repo.as_str());
        s
    }

    /// The reference as text: its short form.
    pub fn to_string(&self) -> (s: String)
        ensures
            s@ == short_id_of(self@),
    {
        self.short_id()
    }
}

/// An issue as it was fetched.
#[derive(Debug, Clone)]
pub struct GitHubIssue {
    pub issue_ref: IssueRef,
    pub title: String,
    pub body: String,
    pub state: String,
    pub labels: Vec<String>,
}

/// The prompt for an issue with the given title and body.
pub open spec fn prompt_of(title: Seq<char>, body: Seq<char>) -> Seq<char> {
    "Here is a GitHub issue for this repository:\n\n## "@ + title + "\n\n"@ + body
        + "\n\n---\n\nFix this issue. Make the minimal changes needed to resolve it.\nDo not modify tests unless the issue specifically requires test changes.\nWhen done, commit your changes with a descriptive message."@
}

impl GitHubIssue {
    /// The prompt that both variants are given for this issue. It depends
    /// on the title and the body alone.
    pub fn to_prompt(&self) -> (prompt: String)
        ensures
            prompt@ == prompt_of(self.title@, self.body@),
    {
        let mut prompt = String::from_str("Here is a GitHub issue for this repository:\n\n## ");
        push_text(&mut prompt, self.title.as_str());
        push_text(&mut prompt, "\n\n");
        push_text(&mut prompt, self.body.as_str());
        push_text(
            &mut prompt,
            "\n\n---\n\nFix this issue. Make the minimal changes needed to resolve it.\nDo not modify tests unless the issue specifically requires test changes.\nWhen done, commit your changes with a descriptive message.",
        );
        prompt
    }
}

/// The part of a reference that a name stands for.
#[derive(Debug, Clone, Copy, PartialEq, Eq, Structural)]
pub enum Part {
    Owner,
    Repo,
}

/// Why a text is no issue reference.
#[derive(Debug, Clone, Copy, PartialEq, Eq, Structural)]
pub enum IssueError {
    /// The issue number is not an unsigned 64-bit number.
    InvalidNumber,
    /// The text before the `#` is not `owner/repo`.
    ExpectedOwnerRepo,
    /// The path is not `owner/repo/issues/N`.
    ExpectedIssuePath,
    /// The owner or the repository is empty.
    EmptyComponent(Part),
    /// The owner or the repository holds a character that no name holds.
    InvalidComponent(Part),
    /// The text has none of the known forms.
    Unrecognized,
}

/// What the validator says of the name `s` of the part `part`.
pub open spec fn component_check(s: Seq<char>, part: Part) -> Result<Seq<char>, IssueError> {
    if s.len() == 0 {
        Err(IssueError::EmptyComponent(part))
    } else if !all_name_chars(s) {
        Err(IssueError::InvalidComponent(part))
    } else {
        Ok(s)
    }
}

/// The number that `s` writes, or the error for a text that writes none.
pub open spec fn number_check(s: Seq<char>) -> Result<u64, IssueError> {
    match parsed_unsigned(s, u64::MAX as nat) {
        Some(n) => Ok(n as u64),
        None => Err(IssueError::InvalidNumber),
    }
}

/// The reference that the slug `owner/repo` and the number `number` make.
pub open spec fn owner_repo_check(slug: Seq<char>) -> Result<(Seq<char>, Seq<char>), IssueError> {
    let parts = split(slug, '/');
    if parts.len() != 2 {
        Err(IssueError::ExpectedOwnerRepo)
    } else {
        match component_check(parts[0], Part::Owner) {
            Err(e) => Err(e),
            Ok(owner) => match component_check(parts[1], Part::Repo) {
                Err(e) => Err(e),
                Ok(repo) => Ok((owner, repo)),
            },
        }
    }
}

/// The reference that the path `owner/repo/issues/N` stands for. What
/// follows the number in the path is not looked at.
pub open spec fn issue_path_check(path: Seq<char>) -> Result<IssueRefView, IssueError> {
    let parts = split(path, '/');
    if parts.len() < 4 || parts[2] != "issues"@ {
        Err(IssueError::ExpectedIssuePath)
    } else {
        match component_check(parts[0], Part::Owner) {
            Err(e) => Err(e),
            Ok(owner) => match component_check(parts[1], Part::Repo) {
                Err(e) => Err(e),
                Ok(repo) => match number_check(parts[3]) {
                    Err(e) => Err(e),
                    Ok(number) => Ok(IssueRefView { owner, repo, number }),
                },
            },
        }
    }
}

/// The reference that `slug#number` stands for, where `at` is the index of
/// the first `#`. The number is read before the slug.
pub open spec fn hash_form_check(s: Seq<char>, at: int) -> Result<IssueRefView, IssueError> {
    match number_check(s.subrange(at + 1, s.len() as int)) {
        Err(e) => Err(e),
        Ok(number) => match owner_repo_check(s.subrange(0, at)) {
            Err(e) => Err(e),
            Ok((owner, repo)) => Ok(IssueRefView { owner, repo, number }),
        },
    }
}

/// The reference that `input` stands for. White space around it is
/// dropped. An address on `github.com` is read as a path; a text with a
/// `#` as `owner/repo#N`; a text with `/issues/` as a path.
pub open spec fn issue_check(input: Seq<char>) -> Result<IssueRefView, IssueError> {
    let s = trimmed(input);
    if has_prefix(s, "https://github.com/"@) {
        issue_path_check(s.subrange("https://github.com/"@.len() as int, s.len() as int))
    } else if has_prefix(s, "http://github.com/"@) {
        issue_path_check(s.subrange("http://github.com/"@.len() as int, s.len() as int))
    } else if find_from(s, '#', 0) < s.len() {
        hash_form_check(s, find_from(s, '#', 0))
    } else if contains_text(s, "/issues/"@) {
        issue_path_check(s)
    } else {
        Err(IssueError::Unrecognized)
    }
}

/// The view of the outcome of a parse.
pub open spec fn outcome(r: Result<IssueRef, IssueError>) -> Result<IssueRefView, IssueError> {
    match r {
        Ok(issue) => Ok(issue@),
        Err(e) => Err(e),
    }
}

/// Checks the name of an owner or of a repository: it is not empty and
/// holds only ASCII letters and digits, hyphens, underscores and dots.
pub fn validate_component(s: &str, part: Part) -> (r: Result<String, IssueError>)
    ensures
        match r {
            Ok(name) => component_check(s@, part) == Ok::<Seq<char>, IssueError>(name@),
            Err(e) => component_check(s@, part) == Err::<Seq<char>, IssueError>(e),
        },
{
    let chars = chars_of(s);
    if chars.len() == 0 {
        Err(IssueError::EmptyComponent(part))
    } else if !chars_all_name_chars(&chars) {
        Err(IssueError::InvalidComponent(part))
    } else {
        Ok(String::from_str(s))
    }
}

/// Reads an issue number.
pub fn parse_number(s: &str) -> (r: Result<u64, IssueError>)
    ensures
        r == number_check(s@),
{
    let chars = chars_of(s);
    match parse_u64(&chars) {
        Some(n) => Ok(n),
        None => Err(IssueError::InvalidNumber),
    }
}

/// Reads `owner/repo`.
pub fn parse_owner_repo(slug: &str) -> (r: Result<(String, String), IssueError>)
    ensures
        match r {
            Ok((owner, repo)) => owner_repo_check(slug@) == Ok::<
                (Seq<char>, Seq<char>),
                IssueError,
            >((owner@, repo@)),
            Err(e) => owner_repo_check(slug@) == Err::<(Seq<char>, Seq<char>), IssueError>(e),
        },
{
    let chars = chars_of(slug);
    let parts = split_chars(&chars, '/');
    assert(texts(parts@).len() == parts@.len());
    if parts.len() != 2 {
        return Err(IssueError::ExpectedOwnerRepo);
    }
    assert(texts(parts@)[0] == parts@[0]@);
    assert(texts(parts@)[1] == parts@[1]@);
    let owner = match validate_component(parts[0].as_str(), Part::Owner) {
        Ok(owner) => owner,
        Err(e) => {
            return Err(e);
        },
    };
    let repo = match validate_component(parts[1].as_str(), Part::Repo) {
        Ok(repo) => repo,
        Err(e) => {
            return Err(e);
        },
    };
    Ok((owner, repo))
}

/// Reads the path form, `owner/repo/issues/N`.
pub fn parse_path_with_issues(path: &str) -> (r: Result<IssueRef, IssueError>)
    ensures
        outcome(r) == issue_path_check(path@),
{
    let chars = chars_of(path);
    let parts = split_chars(&chars, '/');
    assert(texts(parts@).len() == parts@.len());
    if parts.len() < 4 {
        return Err(IssueError::ExpectedIssuePath);
    }
    assert(texts(parts@)[0] == parts@[0]@);
    assert(texts(parts@)[1] == parts@[1]@);
    assert(texts(parts@)[2] == parts@[2]@);
    assert(texts(parts@)[3] == parts@[3]@);
    if !text_eq(parts[2].as_str(), "issues") {
        return Err(IssueError::ExpectedIssuePath);
    }
    let owner = match validate_component(parts[0].as_str(), Part::Owner) {
        Ok(owner) => owner,
        Err(e) => {
            return Err(e);
        },
    };
    let repo = match validate_component(parts[1].as_str(), Part::Repo) {
        Ok(repo) => repo,
        Err(e) => {
            return Err(e);
        },
    };
    let number = match parse_number(parts[3].as_str()) {
        Ok(number) => number,
        Err(e) => {
            return Err(e);
        },
    };
    Ok(IssueRef { owner, repo, number })
}

/// Reads an issue reference in one of its three forms: `owner/repo#123`,
/// `https://github.com/owner/repo/issues/123` (or with `http`), and
/// `owner/repo/issues/123`.
pub fn parse_issue_identifier(input: &str) -> (r: Result<IssueRef, IssueError>)
    ensures
        outcome(r) == issue_check(input@),
{
    let raw = chars_of(input);
    let s = trim_chars(&raw);
    if chars_start_with(&s, "https://github.com/") {
        let skip = chars_of("https://github.com/").len();
        let rest = string_of_range(&s, skip, s.len());
        return parse_path_with_issues(rest.as_str());
    }
    if chars_start_with(&s, "http://github.com/") {
        let skip = chars_of("http://github.com/").len();
        let rest = string_of_range(&s, skip, s.len());
        return parse_path_with_issues(rest.as_str());
    }
    let at = find_char(&s, '#', 0);
    if at < s.len() {
        let number_text = string_of_range(&s, at + 1, s.len());
        let number = match parse_number(number_text.as_str()) {
            Ok(number) => number,
            Err(e) => {
                return Err(e);
            },
        };
        let slug = string_of_range(&s, 0, at);
        return match parse_owner_repo(slug.as_str()) {
            Ok((owner, repo)) => Ok(IssueRef { owner, repo, number }),
            Err(e) => Err(e),
        };
    }
    let marker = chars_of("/issues/");
    if chars_contain(&s, &marker) {
        let whole = string_of(&s);
        return parse_path_with_issues(whole.as_str());
    }
    Err(IssueError::Unrecognized)
}

/// The arguments with which the issue tracker's command line tool is asked
/// for an issue.
pub open spec fn fetch_arguments_of(r: IssueRefView) -> Seq<Seq<char>> {
    seq![
        "issue"@,
        "view"@,
        decimal(r.number as nat),
        "--repo"@,
        slug_of(r),
        "--json"@,
        "title,body,labels,state"@,
    ]
}

/// Adds a copy of `word` to a list of arguments.
fn push_word(list: &mut Vec<String>, word: &str)
    ensures
        texts(final(list)@) == texts(old(list)@).push(word@),
{
    list.push(String::from_str(word));
    assert(texts(list@) =~= texts(old(list)@).push(word@));
}

/// The arguments with which the tool `gh` is asked for the issue.
pub fn fetch_arguments(issue_ref: &IssueRef) -> (args: Vec<String>)
    ensures
        texts(args@) == fetch_arguments_of(issue_ref@),
{
    let mut args: Vec<String> = Vec::new();
    assert(texts(args@) =~= Seq::empty());
    push_word(&mut args, "issue");
    push_word(&mut args, "view");
    let mut number = String::new();
    push_decimal(&mut number, issue_ref.number);
    assert(number@ =~= decimal(issue_ref.number as nat));
    push_word(&mut args, number.as_str());
    push_word(&mut args, "--repo");
    let slug = issue_ref.repo_slug();
    push_word(&mut args, slug.as_str());
    push_word(&mut args, "--json");
    push_word(&mut args, "title,body,labels,state");
    assert(texts(args@) =~= fetch_arguments_of(issue_ref@));
    args
}

/// The text of the member `key`, or `default` where the document has no
/// such text.
pub open spec fn text_or(data: Json, key: Seq<char>, default: Seq<char>) -> Seq<char> {
    match text_member(data, key) {
        Some(t) => t,
        None => default,
    }
}

/// The names of the first `n` labels: a label without a name gives none.
pub open spec fn label_names(labels: Seq<Json>, n: int) -> Seq<Seq<char>>
    decreases n,
{
    if n <= 0 {
        Seq::empty()
    } else {
        let before = label_names(labels, n - 1);
        match text_member(labels[n - 1], "name"@) {
            Some(name) => before.push(name),
            None => before,
        }
    }
}

/// The names of the labels of an issue document; none where the document
/// has no list of labels.
pub open spec fn labels_of(data: Json) -> Seq<Seq<char>> {
    match data.member("labels"@) {
        Some(labels) => match labels.items() {
            Some(items) => label_names(items, items.len() as int),
            None => Seq::empty(),
        },
        None => Seq::empty(),
    }
}

/// The names of the labels of an issue document.
fn read_labels(data: &Json) -> (labels: Vec<String>)
    ensures
        texts(labels@) == labels_of(*data),
{
    let mut labels: Vec<String> = Vec::new();
    assert(texts(labels@) =~= Seq::empty());
    match data.get("labels") {
        Some(list) => match list.as_array() {
            Some(items) => {
                let mut i: usize = 0;
                while i < items.len()
                    invariant
                        0 <= i <= items.len(),
                        texts(labels@) == label_names(items@, i as int),
                    decreases items.len() - i,
                {
                    match text_at(&items[i], "name") {
                        Some(name) => {
                            push_word(&mut labels, name);
                        },
                        None => {},
                    }
                    i += 1;
                }
            },
            None => {},
        },
        None => {},
    }
    labels
}

/// The issue `issue_ref` as the document `data` describes it. A document
/// without a title gives the title `(no title)`, one without a body an
/// empty body, one without a state the state `UNKNOWN`.
pub fn issue_from_json(issue_ref: IssueRef, data: &Json) -> (issue: GitHubIssue)
    ensures
        issue.issue_ref == issue_ref,
        issue.title@ == text_or(*data, "title"@, "(no title)"@),
        issue.body@ == text_or(*data, "body"@, ""@),
        issue.state@ == text_or(*data, "state"@, "UNKNOWN"@),
        texts(issue.labels@) == labels_of(*data),
{
    let title = match text_at(data, "title") {
        Some(t) => String::from_str(t),
        None => String::from_str("(no title)"),
    };
    let body = match text_at(data, "body") {
        Some(t) => String::from_str(t),
        None => String::from_str(""),
    };
    let state = match text_at(data, "state") {
        Some(t) => String::from_str(t),
        None => String::from_str("UNKNOWN"),
    };
    let labels = read_labels(data);
    GitHubIssue { issue_ref, title, body, state, labels }
}

/// Why an issue could not be had.
#[derive(Debug, Clone, Copy, PartialEq, Eq, Structural)]
pub enum FetchError {
    /// The issue does not exist or cannot be seen.
    NotFound,
    /// The tool failed for another reason.
    Failed,
    /// What the tool printed is no JSON document.
    Unreadable,
}

/// What the tool wrote to its error stream says that the issue was not
/// found.
pub open spec fn says_not_found(stderr: Seq<char>) -> bool {
    contains_text(stderr, "not found"@) || contains_text(stderr, "Could not resolve"@)
}

/// The error for a tool that failed and wrote `stderr`.
pub fn classify_failure(stderr: &str) -> (e: FetchError)
    ensures
        e == if says_not_found(stderr@) {
            FetchError::NotFound
        } else {
            FetchError::Failed
        },
{
    if contains(stderr, "not found") || contains(stderr, "Could not resolve") {
        FetchError::NotFound
    } else {
        FetchError::Failed
    }
}

/// Reads the issue `issue_ref` off what the tool printed. `succeeded` tells
/// whether the tool reported success.
pub fn read_issue(issue_ref: IssueRef, succeeded: bool, stdout: &str, stderr: &str) -> (r: Result<
    GitHubIssue,
    FetchError,
>)
    ensures
        match r {
            Ok(issue) => {
                &&& succeeded
                &&& json_of(stdout@) matches Some(data)
                &&& issue.issue_ref == issue_ref
                &&& issue.title@ == text_or(data, "title"@, "(no title)"@)
                &&& issue.body@ == text_or(data, "body"@, ""@)
                &&& issue.state@ == text_or(data, "state"@, "UNKNOWN"@)
                &&& texts(issue.labels@) == labels_of(data)
            },
            Err(FetchError::Unreadable) => succeeded && json_of(stdout@) is None,
            Err(FetchError::NotFound) => !succeeded && says_not_found(stderr@),
            Err(FetchError::Failed) => !succeeded && !says_not_found(stderr@),
        },
{
    if !succeeded {
        return Err(classify_failure(stderr));
    }
    match decode(stdout) {
        Some(data) => Ok(issue_from_json(issue_ref, &data)),
        None => Err(FetchError::Unreadable),
    }
}

} // verus!
