//! Benchmark tasks and the two built-in task sets.

use crate::text::texts;
use vstd::prelude::*;

verus! {

/// What a task asks for.
#[derive(Debug, Clone, Copy, PartialEq, Eq, Structural)]
pub enum TaskCategory {
    /// Find specific code elements.
    Exploration,
    /// Understand the architecture.
    Understanding,
    /// Find dependencies.
    Dependencies,
    /// Locate exports.
    Exports,
}

/// The name of a category, in lower case.
pub open spec fn category_name(category: TaskCategory) -> Seq<char> {
    match category {
        TaskCategory::Exploration => "exploration"@,
        TaskCategory::Understanding => "understanding"@,
        TaskCategory::Dependencies => "dependencies"@,
        TaskCategory::Exports => "exports"@,
    }
}

impl TaskCategory {
    /// The name of the category, in lower case.
    pub fn as_str(&self) -> (name: &'static str)
        ensures
            name@ == category_name(*self),
    {
        match self {
            TaskCategory::Exploration => "exploration",
            TaskCategory::Understanding => "understanding",
            TaskCategory::Dependencies => "dependencies",
            TaskCategory::Exports => "exports",
        }
    }

    /// The name of the category, in lower case.
    pub fn to_string(&self) -> (name: String)
        ensures
            name@ == category_name(*self),
    {
        String::from_str(self.as_str())
    }
}

/// The bit pattern of the double 1.0.
pub const ONE_DOLLAR_BITS: u64 = 0x3ff0_0000_0000_0000;

/// The bit pattern of the double 1.5.
pub const ONE_AND_A_HALF_DOLLAR_BITS: u64 = 0x3ff8_0000_0000_0000;

/// The bit pattern of the double 2.0.
pub const TWO_DOLLAR_BITS: u64 = 0x4000_0000_0000_0000;

/// A task to run against a repository.
#[derive(Debug, Clone)]
pub struct Task {
    pub id: String,
    pub name: String,
    pub prompt: String,
    pub category: TaskCategory,
    /// Words expected in the response.
    pub expected_patterns: Vec<String>,
    pub max_turns: u32,
    /// The budget of the task in dollars, as the bit pattern of a double.
    pub max_budget_usd_bits: u64,
}

/// The view of a [`Task`].
pub struct TaskView {
    pub id: Seq<char>,
    pub name: Seq<char>,
    pub prompt: Seq<char>,
    pub category: TaskCategory,
    pub expected_patterns: Seq<Seq<char>>,
    pub max_turns: u32,
    pub max_budget_usd_bits: u64,
}

impl View for Task {
    type V = TaskView;

    open spec fn view(&self) -> TaskView {
        TaskView {
            id: self.id@,
            name: self.name@,
            prompt: self.prompt@,
            category: self.category,
            expected_patterns: texts(self.expected_patterns@),
            max_turns: self.max_turns,
            max_budget_usd_bits: self.max_budget_usd_bits,
        }
    }
}

/// The turns a task may take where it states none.
pub fn default_max_turns() -> (turns: u32)
    ensures
        turns == 20,
{
    20
}

/// The budget of a task that states none: two dollars, as the bit pattern
/// of a double.
pub fn default_max_budget() -> (bits: u64)
    ensures
        bits == TWO_DOLLAR_BITS,
{
    TWO_DOLLAR_BITS
}

/// A named list of tasks.
#[derive(Debug, Clone)]
pub struct TaskSet {
    pub name: String,
    pub description: String,
    pub tasks: Vec<Task>,
}

/// The views of a list of tasks.
pub open spec fn task_views(tasks: Seq<Task>) -> Seq<TaskView> {
    tasks.map_values(|t: Task| t@)
}

/// The task that asks for the entry point.
pub open spec fn find_entry_task() -> TaskView {
    TaskView {
        id: "find_entry"@,
        name: "Find Entry Point"@,
        prompt: "What is the main entry point of this codebase? List the primary exported functions or classes."@,
        category: TaskCategory::Exploration,
        expected_patterns: seq!["export"@, "main"@, "index"@],
        max_turns: 10,
        max_budget_usd_bits: ONE_DOLLAR_BITS,
    }
}

/// The task that asks for the architecture.
pub open spec fn architecture_task() -> TaskView {
    TaskView {
        id: "architecture"@,
        name: "Architecture Overview"@,
        prompt: "Describe the high-level architecture of this project. What are the main modules and how do they interact?"@,
        category: TaskCategory::Understanding,
        expected_patterns: seq!["module"@, "component"@, "import"@],
        max_turns: 15,
        max_budget_usd_bits: ONE_AND_A_HALF_DOLLAR_BITS,
    }
}

/// The task that asks for the public interface.
pub open spec fn find_export_task() -> TaskView {
    TaskView {
        id: "find_export"@,
        name: "Find Specific Export"@,
        prompt: "Find where the main public API is exported from. What functions or classes are available to consumers of this library?"@,
        category: TaskCategory::Exports,
        expected_patterns: seq!["export"@, "public"@],
        max_turns: 10,
        max_budget_usd_bits: ONE_DOLLAR_BITS,
    }
}

/// The task that asks for the internal dependencies.
pub open spec fn dependencies_task() -> TaskView {
    TaskView {
        id: "dependencies"@,
        name: "Dependency Analysis"@,
        prompt: "What are the key internal dependencies in this codebase? Which modules depend on which other modules?"@,
        category: TaskCategory::Dependencies,
        expected_patterns: seq!["import"@, "depend"@, "require"@],
        max_turns: 15,
        max_budget_usd_bits: ONE_AND_A_HALF_DOLLAR_BITS,
    }
}

/// The task that asks for the number of source files.
pub open spec fn file_count_task() -> TaskView {
    TaskView {
        id: "file_count"@,
        name: "Codebase Stats"@,
        prompt: "How many source files are in this project? Provide a breakdown by file type or module."@,
        category: TaskCategory::Exploration,
        expected_patterns: seq!["file"@, "count"@, "total"@],
        max_turns: 10,
        max_budget_usd_bits: ONE_DOLLAR_BITS,
    }
}

/// The tasks of the standard set.
pub open spec fn standard_tasks() -> Seq<TaskView> {
    seq![
        find_entry_task(),
        architecture_task(),
        find_export_task(),
        dependencies_task(),
        file_count_task(),
    ]
}

/// The tasks of the quick set: the first two of the standard set.
pub open spec fn quick_tasks() -> Seq<TaskView> {
    standard_tasks().take(2)
}

/// A list of words.
fn words(list: &[&str]) -> (out: Vec<String>)
    ensures
        out@.len() == list@.len(),
        forall|i: int| 0 <= i < list@.len() ==> (#[trigger] out@[i])@ == list@[i]@,
{
    let mut out: Vec<String> = Vec::new();
    let mut i: usize = 0;
    while i < list.len()
        invariant
            0 <= i <= list.len(),
            out@.len() == i,
            forall|j: int| 0 <= j < i ==> (#[trigger] out@[j])@ == list@[j]@,
        decreases list.len() - i,
    {
        out.push(String::from_str(list[i]));
        i += 1;
    }
    out
}

/// The task that asks for the entry point.
fn find_entry() -> (task: Task)
    ensures
        task@ == find_entry_task(),
{
    let expected_patterns = words(&["export", "main", "index"]);
    assert(texts(expected_patterns@) =~= seq!["export"@, "main"@, "index"@]);
    Task {
        id: String::from_str("find_entry"),
        name: String::from_str("Find Entry Point"),
        prompt: String::from_str(
            "What is the main entry point of this codebase? List the primary exported functions or classes.",
        ),
        category: TaskCategory::Exploration,
        expected_patterns,
        max_turns: 10,
        max_budget_usd_bits: ONE_DOLLAR_BITS,
    }
}

/// The task that asks for the architecture.
fn architecture() -> (task: Task)
    ensures
        task@ == architecture_task(),
{
    let expected_patterns = words(&["module", "component", "import"]);
    assert(texts(expected_patterns@) =~= seq!["module"@, "component"@, "import"@]);
    Task {
        id: String::from_str("architecture"),
        name: String::from_str("Architecture Overview"),
        prompt: String::from_str(
            "Describe the high-level architecture of this project. What are the main modules and how do they interact?",
        ),
        category: TaskCategory::Understanding,
        expected_patterns,
        max_turns: 15,
        max_budget_usd_bits: ONE_AND_A_HALF_DOLLAR_BITS,
    }
}

/// The task that asks for the public interface.
fn find_export() -> (task: Task)
    ensures
        task@ == find_export_task(),
{
    let expected_patterns = words(&["export", "public"]);
    assert(texts(expected_patterns@) =~= seq!["export"@, "public"@]);
    Task {
        id: String::from_str("find_export"),
        name: String::from_str("Find Specific Export"),
        prompt: String::from_str(
            "Find where the main public API is exported from. What functions or classes are available to consumers of this library?",
        ),
        category: TaskCategory::Exports,
        expected_patterns,
        max_turns: 10,
        max_budget_usd_bits: ONE_DOLLAR_BITS,
    }
}

/// The task that asks for the internal dependencies.
fn dependencies() -> (task: Task)
    ensures
        task@ == dependencies_task(),
{
    let expected_patterns = words(&["import", "depend", "require"]);
    assert(texts(expected_patterns@) =~= seq!["import"@, "depend"@, "require"@]);
    Task {
        id: String::from_str("dependencies"),
        name: String::from_str("Dependency Analysis"),
        prompt: String::from_str(
            "What are the key internal dependencies in this codebase? Which modules depend on which other modules?",
        ),
        category: TaskCategory::Dependencies,
        expected_patterns,
        max_turns: 15,
        max_budget_usd_bits: ONE_AND_A_HALF_DOLLAR_BITS,
    }
}

/// The task that asks for the number of source files.
fn file_count() -> (task: Task)
    ensures
        task@ == file_count_task(),
{
    let expected_patterns = words(&["file", "count", "total"]);
    assert(texts(expected_patterns@) =~= seq!["file"@, "count"@, "total"@]);
    Task {
        id: String::from_str("file_count"),
        name: String::from_str("Codebase Stats"),
        prompt: String::from_str(
            "How many source files are in this project? Provide a breakdown by file type or module.",
        ),
        category: TaskCategory::Exploration,
        expected_patterns,
        max_turns: 10,
        max_budget_usd_bits: ONE_DOLLAR_BITS,
    }
}

impl TaskSet {
    /// The standard set: five tasks for any codebase.
    pub fn standard() -> (set: TaskSet)
        ensures
            set.name@ == "standard"@,
            set.description@ == "Standard benchmark tasks for any codebase"@,
            task_views(set.tasks@) == standard_tasks(),
    {
        let mut tasks: Vec<Task> = Vec::new();
        tasks.push(find_entry());
        tasks.push(architecture());
        tasks.push(find_export());
        tasks.push(dependencies());
        tasks.push(file_count());
        assert(task_views(tasks@) =~= standard_tasks());
        TaskSet {
            name: String::from_str("standard"),
            description: String::from_str("Standard benchmark tasks for any codebase"),
            tasks,
        }
    }

    /// The quick set: the first two tasks of the standard set.
    pub fn quick() -> (set: TaskSet)
        ensures
            set.name@ == "quick"@,
            set.description@ == "Quick benchmark with fewer tasks"@,
            task_views(set.tasks@) == quick_tasks(),
    {
        let mut tasks: Vec<Task> = Vec::new();
        tasks.push(find_entry());
        tasks.push(architecture());
        assert(task_views(tasks@) =~= quick_tasks());
        TaskSet {
            name: String::from_str("quick"),
            description: String::from_str("Quick benchmark with fewer tasks"),
            tasks,
        }
    }
}

} // verus!
