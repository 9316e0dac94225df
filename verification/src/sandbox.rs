//! The sandbox of a job: a pair of directories, one per variant, each with
//! a checkout of the same repository.
//!
//! This module checks the identifiers that a sandbox is made from and says
//! which commands fill it. Creating directories and running the commands is
//! the caller's work.

use crate::text::{
    all_path_safe, chars_all_path_safe, chars_contain, chars_have, chars_of, chars_range,
    chars_start_with, contains_text, find_char, find_from, has_char, has_prefix, join_path,
    joined, push_text, string_of, texts, trim_chars, trimmed,
};
use vstd::prelude::*;

verus! {

/// Why a sandbox cannot be made or filled.
#[derive(Debug, Clone, Copy, PartialEq, Eq, Structural)]
pub enum SandboxError {
    /// The job identifier is empty.
    EmptyJobId,
    /// The job identifier holds a character other than an ASCII letter or
    /// digit, a hyphen or an underscore.
    InvalidJobId,
    /// The address of the repository does not begin with `https://`.
    NotHttps,
    /// The host of the address is empty or has no dot.
    InvalidHost,
    /// The address holds `..`, a NUL, a semicolon or a vertical bar.
    ForbiddenCharacters,
}

/// What the validator says of a job identifier.
pub open spec fn job_id_check(job_id: Seq<char>) -> Result<(), SandboxError> {
    if job_id.len() == 0 {
        Err(SandboxError::EmptyJobId)
    } else if !all_path_safe(job_id) {
        Err(SandboxError::InvalidJobId)
    } else {
        Ok(())
    }
}

/// Checks that a job identifier is safe as a path component: it is not
/// empty and holds only ASCII letters and digits, hyphens and underscores.
pub fn validate_job_id(job_id: &str) -> (r: Result<(), SandboxError>)
    ensures
        r == job_id_check(job_id@),
{
    let chars = chars_of(job_id);
    if chars.len() == 0 {
        Err(SandboxError::EmptyJobId)
    } else if !chars_all_path_safe(&chars) {
        Err(SandboxError::InvalidJobId)
    } else {
        Ok(())
    }
}

/// The host of an address that begins with `https://`: what stands between
/// that and the next slash.
pub open spec fn host_of(url: Seq<char>) -> Seq<char> {
    let from = "https://"@.len() as int;
    url.subrange(from, find_from(url, '/', from))
}

/// What the validator says of the address of a repository.
pub open spec fn repo_url_check(url: Seq<char>) -> Result<(), SandboxError> {
    if !has_prefix(url, "https://"@) {
        Err(SandboxError::NotHttps)
    } else if host_of(url).len() == 0 || !has_char(host_of(url), '.') {
        Err(SandboxError::InvalidHost)
    } else if contains_text(url, ".."@) || has_char(url, '\0') || has_char(url, ';') || has_char(
        url,
        '|',
    ) {
        Err(SandboxError::ForbiddenCharacters)
    } else {
        Ok(())
    }
}

/// Checks that the address of a repository is an HTTPS address with a host
/// that has a dot, and that it holds nothing that could leave the address:
/// no `..`, no NUL, no semicolon, no vertical bar.
pub fn validate_repo_url(url: &str) -> (r: Result<(), SandboxError>)
    ensures
        r == repo_url_check(url@),
{
    let chars = chars_of(url);
    if !chars_start_with(&chars, "https://") {
        return Err(SandboxError::NotHttps);
    }
    let from = chars_of("https://").len();
    let to = find_char(&chars, '/', from);
    let host = chars_range(&chars, from, to);
    if host.len() == 0 || !chars_have(&host, '.') {
        return Err(SandboxError::InvalidHost);
    }
    let dots = chars_of("..");
    if chars_contain(&chars, &dots) || chars_have(&chars, '\0') || chars_have(&chars, ';')
        || chars_have(&chars, '|') {
        return Err(SandboxError::ForbiddenCharacters);
    }
    Ok(())
}

/// The sandbox of one job.
#[derive(Debug, Clone)]
pub struct Sandbox {
    /// The directory of the sandbox.
    pub root: String,
    /// The checkout for the baseline variant.
    pub control_dir: String,
    /// The checkout for the augmented variant.
    pub fmm_dir: String,
    /// Whether the sandbox is removed when it is dropped.
    pub cleanup_on_drop: bool,
}

/// The directory of the sandbox of `job_id` under `temp_dir`.
pub open spec fn root_of(temp_dir: Seq<char>, job_id: Seq<char>) -> Seq<char> {
    joined(temp_dir, "fmm-compare-"@ + job_id)
}

/// The command line of a shallow clone of `url` into `dir`, of `branch`
/// where one is given.
pub open spec fn clone_command(url: Seq<char>, branch: Option<Seq<char>>, dir: Seq<char>) -> Seq<
    Seq<char>,
> {
    let head = seq!["git"@, "clone"@, "--depth"@, "1"@, "--single-branch"@];
    match branch {
        Some(b) => head + seq!["--branch"@, b, url, dir],
        None => head + seq![url, dir],
    }
}

/// The views of a list of command lines.
pub open spec fn command_lines(commands: Seq<Vec<String>>) -> Seq<Seq<Seq<char>>> {
    commands.map_values(|c: Vec<String>| texts(c@))
}

/// The view of an optional text.
pub open spec fn opt_str(s: Option<&str>) -> Option<Seq<char>> {
    match s {
        Some(s) => Some(s@),
        None => None,
    }
}

/// Adds a copy of `word` to a command line.
fn push_word(command: &mut Vec<String>, word: &str)
    ensures
        texts(final(command)@) == texts(old(command)@).push(word@),
{
    command.push(String::from_str(word));
    assert(texts(command@) =~= texts(old(command)@).push(word@));
}

/// The command line of a shallow clone.
fn clone_to_dir(url: &str, branch: Option<&str>, dir: &str) -> (command: Vec<String>)
    ensures
        texts(command@) == clone_command(url@, opt_str(branch), dir@),
{
    let mut command: Vec<String> = Vec::new();
    assert(texts(command@) =~= Seq::empty());
    push_word(&mut command, "git");
    push_word(&mut command, "clone");
    push_word(&mut command, "--depth");
    push_word(&mut command, "1");
    push_word(&mut command, "--single-branch");
    assert(texts(command@) =~= seq!["git"@, "clone"@, "--depth"@, "1"@, "--single-branch"@]);
    let ghost head = texts(command@);
    match branch {
        Some(b) => {
            push_word(&mut command, "--branch");
            push_word(&mut command, b);
            push_word(&mut command, url);
            push_word(&mut command, dir);
            assert(texts(command@) =~= head + seq!["--branch"@, b@, url@, dir@]);
        },
        None => {
            push_word(&mut command, url);
            push_word(&mut command, dir);
            assert(texts(command@) =~= head + seq![url@, dir@]);
        },
    }
    command
}

impl Sandbox {
    /// Whether the sandbox is removed when it is dropped.
    pub open spec fn cleans_up(&self) -> bool {
        self.cleanup_on_drop
    }

    /// The sandbox of the job `job_id` under the directory `temp_dir`: its
    /// root is `fmm-compare-` and the job identifier, and the two checkouts
    /// are `control` and `fmm` under the root. It is removed when dropped.
    pub fn new(temp_dir: &str, job_id: &str) -> (r: Result<Sandbox, SandboxError>)
        ensures
            match r {
                Ok(sandbox) => {
                    &&& job_id_check(job_id@) is Ok
                    &&& sandbox.root@ == root_of(temp_dir@, job_id@)
                    &&& sandbox.control_dir@ == joined(sandbox.root@, "control"@)
                    &&& sandbox.fmm_dir@ == joined(sandbox.root@, "fmm"@)
                    &&& sandbox.cleans_up()
                },
                Err(e) => job_id_check(job_id@) == Err::<(), SandboxError>(e),
            },
    {
        match validate_job_id(job_id) {
            Ok(()) => {},
            Err(e) => {
                return Err(e);
            },
        }
        let mut name = String::from_str("fmm-compare-");
        push_text(&mut name, job_id);
        let root = join_path(temp_dir, name.as_str());
        let control_dir = join_path(root.as_str(), "control");
        let fmm_dir = join_path(root.as_str(), "fmm");
        Ok(Sandbox { root, control_dir, fmm_dir, cleanup_on_drop: true })
    }

    /// The commands that clone the repository at `url` into the sandbox:
    /// one shallow clone into the checkout of each variant, the baseline
    /// first. No command is given for an address that the validator
    /// rejects.
    pub fn clone_repo(&self, url: &str, branch: Option<&str>) -> (r: Result<
        Vec<Vec<String>>,
        SandboxError,
    >)
        ensures
            match r {
                Ok(commands) => repo_url_check(url@) is Ok && command_lines(commands@) == seq![
                    clone_command(url@, opt_str(branch), self.control_dir@),
                    clone_command(url@, opt_str(branch), self.fmm_dir@),
                ],
                Err(e) => repo_url_check(url@) == Err::<(), SandboxError>(e),
            },
    {
        match validate_repo_url(url) {
            Ok(()) => {},
            Err(e) => {
                return Err(e);
            },
        }
        let mut commands: Vec<Vec<String>> = Vec::new();
        commands.push(clone_to_dir(url, branch, self.control_dir.as_str()));
        commands.push(clone_to_dir(url, branch, self.fmm_dir.as_str()));
        assert(command_lines(commands@) =~= seq![
            clone_command(url@, opt_str(branch), self.control_dir@),
            clone_command(url@, opt_str(branch), self.fmm_dir@),
        ]);
        Ok(commands)
    }

    /// What is to be removed when the sandbox is dropped: its root with all
    /// that is in it, or nothing for a sandbox that was told to stay.
    pub fn on_drop(&self) -> (target: Option<String>)
        ensures
            match target {
                Some(dir) => self.cleans_up() && dir@ == self.root@,
                None => !self.cleans_up(),
            },
    {
        if self.cleanup_on_drop {
            Some(String::from_str(self.root.as_str()))
        } else {
            None
        }
    }

    /// Keeps the sandbox when it is dropped.
    pub fn keep_on_drop(&mut self)
        ensures
            !final(self).cleans_up(),
            final(self).root == old(self).root,
            final(self).control_dir == old(self).control_dir,
            final(self).fmm_dir == old(self).fmm_dir,
    {
        self.cleanup_on_drop = false;
    }
}

/// One command of a plan, with the directory in which it runs.
#[derive(Debug, Clone)]
pub struct Step {
    /// The directory in which the command runs; none for a command that
    /// runs anywhere.
    pub dir: Option<String>,
    /// The command line, program first.
    pub command: Vec<String>,
}

/// The view of a [`Step`].
pub struct StepView {
    pub dir: Option<Seq<char>>,
    pub command: Seq<Seq<char>>,
}

impl View for Step {
    type V = StepView;

    open spec fn view(&self) -> StepView {
        StepView {
            dir: match self.dir {
                Some(d) => Some(d@),
                None => None,
            },
            command: texts(self.command@),
        }
    }
}

/// The views of a list of steps.
pub open spec fn step_views(steps: Seq<Step>) -> Seq<StepView> {
    steps.map_values(|s: Step| s@)
}

/// The steps that bring the checkout in `dir` to the commit `commit`: a
/// shallow clone, then a checkout of the commit.
pub open spec fn pinned_clone(
    url: Seq<char>,
    commit: Seq<char>,
    branch: Option<Seq<char>>,
    dir: Seq<char>,
) -> Seq<StepView> {
    seq![
        StepView { dir: None, command: clone_command(url, branch, dir) },
        StepView { dir: Some(dir), command: seq!["git"@, "checkout"@, commit] },
    ]
}

/// The steps that bring the checkout in `dir` back to the state of its
/// commit: changes are undone and files that are not tracked are removed.
pub open spec fn reset_steps(dir: Seq<char>) -> Seq<StepView> {
    seq![
        StepView { dir: Some(dir), command: seq!["git"@, "checkout"@, "."@] },
        StepView { dir: Some(dir), command: seq!["git"@, "clean"@, "-fd"@] },
    ]
}

/// A step that runs the words `words` in `dir`.
fn step_in(dir: &str, words: &[&str]) -> (step: Step)
    ensures
        step@.dir == Some(dir@),
        step@.command.len() == words@.len(),
        forall|i: int| 0 <= i < words@.len() ==> #[trigger] step@.command[i] == words@[i]@,
{
    let mut command: Vec<String> = Vec::new();
    let mut i: usize = 0;
    while i < words.len()
        invariant
            0 <= i <= words.len(),
            command@.len() == i,
            forall|j: int| 0 <= j < i ==> (#[trigger] command@[j])@ == words@[j]@,
        decreases words.len() - i,
    {
        command.push(String::from_str(words[i]));
        i += 1;
    }
    Step { dir: Some(String::from_str(dir)), command }
}

impl Sandbox {
    /// The steps that clone the repository at `url` into the sandbox and
    /// bring both checkouts to the commit `commit`, the baseline first. No
    /// step is given for an address that the validator rejects.
    pub fn clone_repo_at_commit(&self, url: &str, commit: &str, branch: Option<&str>) -> (r: Result<
        Vec<Step>,
        SandboxError,
    >)
        ensures
            match r {
                Ok(steps) => repo_url_check(url@) is Ok && step_views(steps@) == pinned_clone(
                    url@,
                    commit@,
                    opt_str(branch),
                    self.control_dir@,
                ) + pinned_clone(url@, commit@, opt_str(branch), self.fmm_dir@),
                Err(e) => repo_url_check(url@) == Err::<(), SandboxError>(e),
            },
    {
        match validate_repo_url(url) {
            Ok(()) => {},
            Err(e) => {
                return Err(e);
            },
        }
        let mut steps: Vec<Step> = Vec::new();
        steps.push(
            Step { dir: None, command: clone_to_dir(url, branch, self.control_dir.as_str()) },
        );
        let checkout = step_in(self.control_dir.as_str(), &["git", "checkout", commit]);
        assert(checkout@.command =~= seq!["git"@, "checkout"@, commit@]);
        steps.push(checkout);
        steps.push(Step { dir: None, command: clone_to_dir(url, branch, self.fmm_dir.as_str()) });
        let checkout = step_in(self.fmm_dir.as_str(), &["git", "checkout", commit]);
        assert(checkout@.command =~= seq!["git"@, "checkout"@, commit@]);
        steps.push(checkout);
        assert(step_views(steps@) =~= pinned_clone(
            url@,
            commit@,
            opt_str(branch),
            self.control_dir@,
        ) + pinned_clone(url@, commit@, opt_str(branch), self.fmm_dir@));
        Ok(steps)
    }

    /// The steps that bring both checkouts back to the state of their
    /// commit between two runs, the baseline first.
    pub fn reset_git_state(&self) -> (steps: Vec<Step>)
        ensures
            step_views(steps@) == reset_steps(self.control_dir@) + reset_steps(self.fmm_dir@),
    {
        let mut steps: Vec<Step> = Vec::new();
        let s = step_in(self.control_dir.as_str(), &["git", "checkout", "."]);
        assert(s@.command =~= seq!["git"@, "checkout"@, "."@]);
        steps.push(s);
        let s = step_in(self.control_dir.as_str(), &["git", "clean", "-fd"]);
        assert(s@.command =~= seq!["git"@, "clean"@, "-fd"@]);
        steps.push(s);
        let s = step_in(self.fmm_dir.as_str(), &["git", "checkout", "."]);
        assert(s@.command =~= seq!["git"@, "checkout"@, "."@]);
        steps.push(s);
        let s = step_in(self.fmm_dir.as_str(), &["git", "clean", "-fd"]);
        assert(s@.command =~= seq!["git"@, "clean"@, "-fd"@]);
        steps.push(s);
        assert(step_views(steps@) =~= reset_steps(self.control_dir@) + reset_steps(
            self.fmm_dir@,
        ));
        steps
    }
}

/// The commit that `git rev-parse HEAD` printed: its output without the
/// white space around it.
pub fn commit_sha(output: &str) -> (sha: String)
    ensures
        sha@ == trimmed(output@),
{
    let chars = chars_of(output);
    let inner = trim_chars(&chars);
    string_of(&inner)
}

} // verus!
