//! Scoring a run after it has ended: what changed, whether the build and
//! the tests pass, and the grade that follows.
//!
//! Running `git`, a build or a test suite is the caller's work. This module
//! reads what those commands printed and decides.

use crate::json::{decode, json_of, Json};
use crate::text::{
    chars_of, contains, contains_text, is_blank, blank, lines, lines_of, parse_u32,
    parsed_unsigned, split, split_chars, texts, trim_chars, trimmed,
};
use vstd::prelude::*;

verus! {

/// The scores of one run.
#[derive(Debug, Clone)]
pub struct EvalScores {
    pub has_commit: bool,
    pub tests_pass: bool,
    pub tests_existed: bool,
    pub build_passes: bool,
    pub files_touched: u32,
    pub diff_lines_added: u32,
    pub diff_lines_removed: u32,
    pub grade: String,
}

/// The size of a change.
#[derive(Debug, Clone, Copy, PartialEq, Eq, Structural)]
pub struct DiffStats {
    pub files_changed: u32,
    pub lines_added: u32,
    pub lines_removed: u32,
}

/// The sum of two counts, or the largest `u32` where the sum is larger.
pub open spec fn plus(a: u32, b: u32) -> u32 {
    if a + b > u32::MAX {
        u32::MAX
    } else {
        (a + b) as u32
    }
}

/// The count that a column of a `numstat` line adds: the number it writes,
/// or nothing where it writes none, as for a binary file.
pub open spec fn column_count(column: Seq<char>) -> u32 {
    match parsed_unsigned(column, u32::MAX as nat) {
        Some(n) => n as u32,
        None => 0,
    }
}

/// The statistics after one more line. A line of three or more columns,
/// parted by tabs, is a changed file; its first column counts as lines
/// added and its second as lines removed.
pub open spec fn stats_after_line(stats: DiffStats, line: Seq<char>) -> DiffStats {
    let columns = split(line, '\t');
    if columns.len() >= 3 {
        DiffStats {
            files_changed: plus(stats.files_changed, 1),
            lines_added: plus(stats.lines_added, column_count(columns[0])),
            lines_removed: plus(stats.lines_removed, column_count(columns[1])),
        }
    } else {
        stats
    }
}

/// The statistics after the lines `all`.
pub open spec fn stats_after(all: Seq<Seq<char>>) -> DiffStats
    decreases all.len(),
{
    if all.len() == 0 {
        DiffStats { files_changed: 0, lines_added: 0, lines_removed: 0 }
    } else {
        stats_after_line(stats_after(all.drop_last()), all.last())
    }
}

/// The statistics that the output of `git diff --numstat` stands for.
pub open spec fn numstat_of(text: Seq<char>) -> DiffStats {
    stats_after(lines(text))
}

/// The count that a column adds.
fn count_column(column: &str) -> (n: u32)
    ensures
        n == column_count(column@),
{
    let chars = chars_of(column);
    match parse_u32(&chars) {
        Some(n) => n,
        None => 0,
    }
}

/// Reads the output of `git diff --numstat`: one line per changed file,
/// with the lines added, the lines removed and the path, parted by tabs.
/// Counts stop at the largest `u32`.
pub fn parse_numstat(text: &str) -> (stats: DiffStats)
    ensures
        stats == numstat_of(text@),
{
    let all = lines_of(text);
    let mut stats = DiffStats { files_changed: 0, lines_added: 0, lines_removed: 0 };
    let mut i: usize = 0;
    assert(texts(all@).take(0) =~= Seq::empty());
    while i < all.len()
        invariant
            0 <= i <= all.len(),
            texts(all@) == lines(text@),
            stats == stats_after(texts(all@).take(i as int)),
        decreases all.len() - i,
    {
        assert(texts(all@).take(i + 1).drop_last() =~= texts(all@).take(i as int));
        assert(texts(all@).take(i + 1).last() == all@[i as int]@);
        let chars = chars_of(all[i].as_str());
        let columns = split_chars(&chars, '\t');
        assert(texts(columns@).len() == columns@.len());
        if columns.len() >= 3 {
            assert(texts(columns@)[0] == columns@[0]@);
            assert(texts(columns@)[1] == columns@[1]@);
            stats = DiffStats {
                files_changed: stats.files_changed.saturating_add(1),
                lines_added: stats.lines_added.saturating_add(count_column(columns[0].as_str())),
                lines_removed: stats.lines_removed.saturating_add(
                    count_column(columns[1].as_str()),
                ),
            };
        }
        i += 1;
    }
    assert(texts(all@).take(i as int) =~= texts(all@));
    stats
}

/// The grade of a run. Without a change it is `F`. With a change that does
/// not build it is `D`. With a build that passes it is `A` where the tests
/// pass, `C` where they fail and `B` where there are none.
pub open spec fn grade_of(
    has_commit: bool,
    tests_existed: bool,
    tests_pass: bool,
    build_passes: bool,
) -> Seq<char> {
    if !has_commit {
        "F"@
    } else if !build_passes {
        "D"@
    } else if tests_existed && tests_pass {
        "A"@
    } else if tests_existed {
        "C"@
    } else {
        "B"@
    }
}

/// The grade of a run.
pub fn compute_grade(has_commit: bool, tests_existed: bool, tests_pass: bool, build_passes: bool)
    -> (grade: String)
    ensures
        grade@ == grade_of(has_commit, tests_existed, tests_pass, build_passes),
{
    if !has_commit {
        String::from_str("F")
    } else if !build_passes {
        String::from_str("D")
    } else if tests_existed && tests_pass {
        String::from_str("A")
    } else if tests_existed {
        String::from_str("C")
    } else {
        String::from_str("B")
    }
}

/// Whether a change of the size `diff` is a change at all.
pub open spec fn changed(diff: DiffStats) -> bool {
    diff.files_changed > 0 || diff.lines_added > 0 || diff.lines_removed > 0
}

/// Scores a run from what was observed after it: the output of
/// `git diff --numstat`, whether the test suite passed (`None` where the
/// repository has none), and whether the build passed (`None` where the
/// repository has no build step, which counts as a build that passes).
pub fn evaluate(diff_text: &str, tests: Option<bool>, build: Option<bool>) -> (scores: EvalScores)
    ensures
        scores.has_commit == changed(numstat_of(diff_text@)),
        scores.tests_existed == tests is Some,
        scores.tests_pass == (tests == Some(true)),
        scores.build_passes == (build != Some(false)),
        scores.files_touched == numstat_of(diff_text@).files_changed,
        scores.diff_lines_added == numstat_of(diff_text@).lines_added,
        scores.diff_lines_removed == numstat_of(diff_text@).lines_removed,
        scores.grade@ == grade_of(
            scores.has_commit,
            scores.tests_existed,
            scores.tests_pass,
            scores.build_passes,
        ),
{
    let diff = parse_numstat(diff_text);
    let has_commit = diff.files_changed > 0 || diff.lines_added > 0 || diff.lines_removed > 0;
    let (tests_existed, tests_pass) = match tests {
        Some(pass) => (true, pass),
        None => (false, false),
    };
    let build_passes = match build {
        Some(pass) => pass,
        None => true,
    };
    let grade = compute_grade(has_commit, tests_existed, tests_pass, build_passes);
    EvalScores {
        has_commit,
        tests_pass,
        tests_existed,
        build_passes,
        files_touched: diff.files_changed,
        diff_lines_added: diff.lines_added,
        diff_lines_removed: diff.lines_removed,
        grade,
    }
}

/// The number of commits that the output of `git rev-list --count` states:
/// the number it writes, white space aside, or 1 where it writes none.
pub open spec fn commit_count_of(output: Seq<char>) -> u32 {
    match parsed_unsigned(trimmed(output), u32::MAX as nat) {
        Some(n) => n as u32,
        None => 1,
    }
}

/// The number of commits that the output of `git rev-list --count` states.
pub fn commit_count(output: &str) -> (n: u32)
    ensures
        n == commit_count_of(output@),
{
    let chars = chars_of(output);
    let inner = trim_chars(&chars);
    match parse_u32(&inner) {
        Some(n) => n,
        None => 1,
    }
}

/// Whether the diff against the parent commit is the one to score: there
/// is a parent, the command succeeded, and it printed something.
pub fn uses_committed_diff(commits: u32, succeeded: bool, diff_text: &str) -> (r: bool)
    ensures
        r == (commits >= 2 && succeeded && !is_blank(diff_text@)),
{
    commits >= 2 && succeeded && !blank(diff_text)
}

/// What a repository holds of the files that tell its tooling.
#[derive(Debug, Clone)]
pub struct RepoFiles {
    pub has_cargo_toml: bool,
    pub has_go_mod: bool,
    pub has_pyproject_toml: bool,
    pub has_setup_py: bool,
    /// The text of `package.json`, where there is one that can be read.
    pub package_json: Option<String>,
    pub has_pnpm_lock: bool,
    pub has_yarn_lock: bool,
}

/// The script `name` of a package description: the member `name` of its
/// member `scripts`.
pub open spec fn script_of(package: Json, name: Seq<char>) -> Option<Json> {
    match package.member("scripts"@) {
        Some(scripts) => scripts.member(name),
        None => None,
    }
}

/// The text of a script, empty for a script that is no string.
pub open spec fn script_text(script: Json) -> Seq<char> {
    match script.text() {
        Some(t) => t,
        None => Seq::empty(),
    }
}

/// A test script that runs tests: it is not empty and is not the
/// placeholder that only reports that no test was specified.
pub open spec fn runs_tests(script: Seq<char>) -> bool {
    script.len() > 0 && !contains_text(script, "no test specified"@) && !contains_text(
        script,
        "exit 1"@,
    )
}

/// The package manager of a Node.js repository, told by its lock file.
pub open spec fn node_runner(has_pnpm_lock: bool, has_yarn_lock: bool) -> Seq<char> {
    if has_pnpm_lock {
        "pnpm"@
    } else if has_yarn_lock {
        "yarn"@
    } else {
        "npm"@
    }
}

/// The view of an optional command.
pub open spec fn command_view(command: Option<Vec<String>>) -> Option<Seq<Seq<char>>> {
    match command {
        Some(words) => Some(texts(words@)),
        None => None,
    }
}

/// Whether the package description `package` has a test script that runs
/// tests.
pub open spec fn has_test_script(package: Option<Json>) -> bool {
    match package {
        Some(package) => match script_of(package, "test"@) {
            Some(script) => runs_tests(script_text(script)),
            None => false,
        },
        None => false,
    }
}

/// Whether the package description `package` has a build script.
pub open spec fn has_build_script(package: Option<Json>) -> bool {
    match package {
        Some(package) => match script_of(package, "build"@) {
            Some(script) => script.text() is Some,
            None => false,
        },
        None => false,
    }
}

/// The command that runs the tests of a repository whose package
/// description, if it has one, decoded to `package`.
pub open spec fn test_command_of(files: RepoFiles, package: Option<Json>) -> Option<
    Seq<Seq<char>>,
> {
    if files.has_cargo_toml {
        Some(seq!["cargo"@, "test"@])
    } else if files.has_go_mod {
        Some(seq!["go"@, "test"@, "./..."@])
    } else if files.has_pyproject_toml || files.has_setup_py {
        Some(seq!["python"@, "-m"@, "pytest"@])
    } else if has_test_script(package) {
        Some(seq![node_runner(files.has_pnpm_lock, files.has_yarn_lock), "test"@])
    } else {
        None
    }
}

/// The command that builds a repository whose package description, if it
/// has one, decoded to `package`.
pub open spec fn build_command_of(files: RepoFiles, package: Option<Json>) -> Option<
    Seq<Seq<char>>,
> {
    if files.has_cargo_toml {
        Some(seq!["cargo"@, "build"@])
    } else if files.has_go_mod {
        Some(seq!["go"@, "build"@, "./..."@])
    } else if has_build_script(package) {
        Some(seq![node_runner(files.has_pnpm_lock, files.has_yarn_lock), "run"@, "build"@])
    } else {
        None
    }
}

/// The package description that the text of `package.json` decodes to.
pub open spec fn package_of(package_json: Option<String>) -> Option<Json> {
    match package_json {
        Some(text) => json_of(text@),
        None => None,
    }
}

/// A command made of the given words.
fn command(words: &[&str]) -> (out: Vec<String>)
    ensures
        out@.len() == words@.len(),
        forall|i: int| 0 <= i < words@.len() ==> (#[trigger] out@[i])@ == words@[i]@,
{
    let mut out: Vec<String> = Vec::new();
    let mut i: usize = 0;
    while i < words.len()
        invariant
            0 <= i <= words.len(),
            out@.len() == i,
            forall|j: int| 0 <= j < i ==> (#[trigger] out@[j])@ == words@[j]@,
        decreases words.len() - i,
    {
        out.push(String::from_str(words[i]));
        i += 1;
    }
    out
}

/// The package manager of a Node.js repository.
fn node_runner_name(files: &RepoFiles) -> (name: &'static str)
    ensures
        name@ == node_runner(files.has_pnpm_lock, files.has_yarn_lock),
{
    if files.has_pnpm_lock {
        "pnpm"
    } else if files.has_yarn_lock {
        "yarn"
    } else {
        "npm"
    }
}

/// Whether a decoded package description has a test script that runs
/// tests.
pub fn package_has_test_script(package: &Option<Json>) -> (r: bool)
    ensures
        r == has_test_script(*package),
{
    match package {
        Some(package) => match package.get("scripts") {
            Some(scripts) => match scripts.get("test") {
                Some(script) => match script.as_str() {
                    Some(text) => {
                        let chars = chars_of(text);
                        chars.len() > 0 && !contains(text, "no test specified") && !contains(
                            text,
                            "exit 1",
                        )
                    },
                    None => false,
                },
                None => false,
            },
            None => false,
        },
        None => false,
    }
}

/// Whether a decoded package description has a build script.
pub fn package_has_build_script(package: &Option<Json>) -> (r: bool)
    ensures
        r == has_build_script(*package),
{
    match package {
        Some(package) => match package.get("scripts") {
            Some(scripts) => match scripts.get("build") {
                Some(script) => script.as_str().is_some(),
                None => false,
            },
            None => false,
        },
        None => false,
    }
}

/// The command that runs the tests, for a repository whose package
/// description decoded to `package`.
pub fn test_command(files: &RepoFiles, package: &Option<Json>) -> (r: Option<Vec<String>>)
    ensures
        command_view(r) == test_command_of(*files, *package),
{
    if files.has_cargo_toml {
        let c = command(&["cargo", "test"]);
        assert(texts(c@) =~= seq!["cargo"@, "test"@]);
        Some(c)
    } else if files.has_go_mod {
        let c = command(&["go", "test", "./..."]);
        assert(texts(c@) =~= seq!["go"@, "test"@, "./..."@]);
        Some(c)
    } else if files.has_pyproject_toml || files.has_setup_py {
        let c = command(&["python", "-m", "pytest"]);
        assert(texts(c@) =~= seq!["python"@, "-m"@, "pytest"@]);
        Some(c)
    } else if package_has_test_script(package) {
        let c = command(&[node_runner_name(files), "test"]);
        assert(texts(c@) =~= seq![
            node_runner(files.has_pnpm_lock, files.has_yarn_lock),
            "test"@,
        ]);
        Some(c)
    } else {
        None
    }
}

/// The command that builds, for a repository whose package description
/// decoded to `package`.
pub fn build_command(files: &RepoFiles, package: &Option<Json>) -> (r: Option<Vec<String>>)
    ensures
        command_view(r) == build_command_of(*files, *package),
{
    if files.has_cargo_toml {
        let c = command(&["cargo", "build"]);
        assert(texts(c@) =~= seq!["cargo"@, "build"@]);
        Some(c)
    } else if files.has_go_mod {
        let c = command(&["go", "build", "./..."]);
        assert(texts(c@) =~= seq!["go"@, "build"@, "./..."@]);
        Some(c)
    } else if package_has_build_script(package) {
        let c = command(&[node_runner_name(files), "run", "build"]);
        assert(texts(c@) =~= seq![
            node_runner(files.has_pnpm_lock, files.has_yarn_lock),
            "run"@,
            "build"@,
        ]);
        Some(c)
    } else {
        None
    }
}

/// Decodes the text of `package.json`, where there is one.
fn decode_package(files: &RepoFiles) -> (package: Option<Json>)
    ensures
        package == package_of(files.package_json),
{
    match &files.package_json {
        Some(text) => decode(text.as_str()),
        None => None,
    }
}

/// The command that runs the tests of a repository: `cargo test` for a
/// Rust crate, `go test ./...` for a Go module, `python -m pytest` for a
/// Python project, and the `test` script of a Node.js package, run by the
/// package manager that the lock file tells, unless the script is the
/// placeholder. `None` where the repository has no tests to run.
pub fn detect_test_runner(files: &RepoFiles) -> (r: Option<Vec<String>>)
    ensures
        command_view(r) == test_command_of(*files, package_of(files.package_json)),
{
    let package = decode_package(files);
    test_command(files, &package)
}

/// The command that builds a repository, or `None` where it has no build
/// step.
pub fn detect_build_command(files: &RepoFiles) -> (r: Option<Vec<String>>)
    ensures
        command_view(r) == build_command_of(*files, package_of(files.package_json)),
{
    let package = decode_package(files);
    build_command(files, &package)
}

} // verus!
