//! The engineering-memory model: experiences, their task, trajectory,
//! verification evidence and scope, and the inputs of learning and recall.

use vstd::prelude::*;
use crate::text::{ascii_lower, is_ascii_text, lemma_trimmed_ascii, lowercase, lowercase_of, text_eq, trim, trimmed};
use crate::time::Timestamp;

verus! {

/// Stack metadata of the project whose memory this is.
#[derive(Debug, Clone)]
pub struct ProjectContext {
    pub name: String,
    pub languages: Vec<String>,
    pub frameworks: Vec<String>,
    pub runtime: Option<String>,
    pub package_manager: Option<String>,
    pub test_frameworks: Vec<String>,
}

/// The context a fresh memory starts with: a native Rust project built with cargo.
pub open spec fn is_default_context(c: ProjectContext) -> bool {
    &&& c.name@ == "LoopLens project"@
    &&& c.languages@.len() == 1
    &&& c.languages@[0]@ == "rust"@
    &&& c.frameworks@.len() == 0
    &&& c.runtime matches Some(r) && r@ == "native"@
    &&& c.package_manager matches Some(p) && p@ == "cargo"@
    &&& c.test_frameworks@.len() == 1
    &&& c.test_frameworks@[0]@ == "cargo test"@
}

impl Default for ProjectContext {
    fn default() -> (r: Self)
        ensures
            is_default_context(r),
    {
        let mut languages = Vec::new();
        languages.push(String::from_str("rust"));
        let mut test_frameworks = Vec::new();
        test_frameworks.push(String::from_str("cargo test"));
        ProjectContext {
            name: String::from_str("LoopLens project"),
            languages,
            frameworks: Vec::new(),
            runtime: Some(String::from_str("native")),
            package_manager: Some(String::from_str("cargo")),
            test_frameworks,
        }
    }
}

/// The legacy configuration file of a memory.
#[derive(Debug, Clone)]
pub struct Config {
    pub version: String,
    pub project: String,
    pub storage: StorageConfig,
}

/// Where a memory keeps its experiences and trajectories.
#[derive(Debug, Clone)]
pub struct StorageConfig {
    pub experiences_dir: String,
    pub trajectories_dir: String,
}

/// The configuration written for a fresh memory.
pub open spec fn is_default_config(c: Config) -> bool {
    &&& c.version@ == "0.2"@
    &&& c.project@ == "LoopLens engineering memory"@
    &&& c.storage.experiences_dir@ == "experiences"@
    &&& c.storage.trajectories_dir@ == "trajectories"@
}

impl Default for Config {
    fn default() -> (r: Self)
        ensures
            is_default_config(r),
    {
        Config {
            version: String::from_str("0.2"),
            project: String::from_str("LoopLens engineering memory"),
            storage: StorageConfig {
                experiences_dir: String::from_str("experiences"),
                trajectories_dir: String::from_str("trajectories"),
            },
        }
    }
}

/// What kind of engineering task an experience records.
#[derive(Debug, Clone, Copy, PartialEq, Eq, Structural)]
pub enum TaskType {
    Bugfix,
    Feature,
    Refactor,
    Migration,
    Performance,
    Build,
    Deployment,
    Testing,
    Configuration,
    Dependency,
    Other,
}

impl Default for TaskType {
    fn default() -> (r: Self)
        ensures
            r == TaskType::Other,
    {
        TaskType::Other
    }
}

/// The task type a (trimmed, lowercased) name stands for, aliases included.
pub open spec fn task_type_named(name: Seq<char>) -> Option<TaskType> {
    if name == "bugfix"@ || name == "bug"@ || name == "fix"@ {
        Some(TaskType::Bugfix)
    } else if name == "feature"@ || name == "feat"@ {
        Some(TaskType::Feature)
    } else if name == "refactor"@ {
        Some(TaskType::Refactor)
    } else if name == "migration"@ || name == "migrate"@ {
        Some(TaskType::Migration)
    } else if name == "performance"@ || name == "perf"@ {
        Some(TaskType::Performance)
    } else if name == "build"@ {
        Some(TaskType::Build)
    } else if name == "deployment"@ || name == "deploy"@ {
        Some(TaskType::Deployment)
    } else if name == "testing"@ || name == "test"@ {
        Some(TaskType::Testing)
    } else if name == "configuration"@ || name == "config"@ {
        Some(TaskType::Configuration)
    } else if name == "dependency"@ || name == "deps"@ {
        Some(TaskType::Dependency)
    } else if name == "other"@ {
        Some(TaskType::Other)
    } else {
        None
    }
}

/// The name a task type is stored and sent under.
pub open spec fn task_type_name(t: TaskType) -> Seq<char> {
    match t {
        TaskType::Bugfix => "bugfix"@,
        TaskType::Feature => "feature"@,
        TaskType::Refactor => "refactor"@,
        TaskType::Migration => "migration"@,
        TaskType::Performance => "performance"@,
        TaskType::Build => "build"@,
        TaskType::Deployment => "deployment"@,
        TaskType::Testing => "testing"@,
        TaskType::Configuration => "configuration"@,
        TaskType::Dependency => "dependency"@,
        TaskType::Other => "other"@,
    }
}

/// The message that refuses an unknown name.
pub open spec fn unknown_message(what: Seq<char>, name: Seq<char>) -> Seq<char> {
    "unknown "@ + what + " `"@ + name + "`"@
}

fn unknown_name(what: &str, name: &str) -> (r: String)
    ensures
        r@ == unknown_message(what@, name@),
{
    let mut out = String::from_str("unknown ");
    out.append(what);
    out.append(" `");
    out.append(name);
    out.append("`");
    out
}

impl TaskType {
    /// Reads a task type from user input: surrounding white space is ignored,
    /// case is folded, and common aliases (`bug`, `feat`, `perf`, ...) are accepted.
    pub fn parse(value: &str) -> (r: Result<TaskType, String>)
        ensures
            match task_type_named(lowercase_of(trimmed(value@))) {
                Some(t) => r == Ok::<TaskType, String>(t),
                None => r matches Err(m) && m@ == unknown_message("task type"@, lowercase_of(
                    trimmed(value@),
                )),
            },
            is_ascii_text(value@) ==> lowercase_of(trimmed(value@)) == ascii_lower(trimmed(value@)),
    {
        proof {
            if is_ascii_text(value@) {
                lemma_trimmed_ascii(value@);
            }
        }
        let key = lowercase(trim(value).as_str());
        let k = key.as_str();
        if text_eq(k, "bugfix") || text_eq(k, "bug") || text_eq(k, "fix") {
            Ok(TaskType::Bugfix)
        } else if text_eq(k, "feature") || text_eq(k, "feat") {
            Ok(TaskType::Feature)
        } else if text_eq(k, "refactor") {
            Ok(TaskType::Refactor)
        } else if text_eq(k, "migration") || text_eq(k, "migrate") {
            Ok(TaskType::Migration)
        } else if text_eq(k, "performance") || text_eq(k, "perf") {
            Ok(TaskType::Performance)
        } else if text_eq(k, "build") {
            Ok(TaskType::Build)
        } else if text_eq(k, "deployment") || text_eq(k, "deploy") {
            Ok(TaskType::Deployment)
        } else if text_eq(k, "testing") || text_eq(k, "test") {
            Ok(TaskType::Testing)
        } else if text_eq(k, "configuration") || text_eq(k, "config") {
            Ok(TaskType::Configuration)
        } else if text_eq(k, "dependency") || text_eq(k, "deps") {
            Ok(TaskType::Dependency)
        } else if text_eq(k, "other") {
            Ok(TaskType::Other)
        } else {
            Err(unknown_name("task type", k))
        }
    }

    /// The variant's name as `Debug` prints it.
    pub fn label(&self) -> (r: &'static str)
        ensures
            r@ == task_type_label(*self),
    {
        match self {
            TaskType::Bugfix => "Bugfix",
            TaskType::Feature => "Feature",
            TaskType::Refactor => "Refactor",
            TaskType::Migration => "Migration",
            TaskType::Performance => "Performance",
            TaskType::Build => "Build",
            TaskType::Deployment => "Deployment",
            TaskType::Testing => "Testing",
            TaskType::Configuration => "Configuration",
            TaskType::Dependency => "Dependency",
            TaskType::Other => "Other",
        }
    }
}

/// The name `Debug` prints for a task type.
pub open spec fn task_type_label(t: TaskType) -> Seq<char> {
    match t {
        TaskType::Bugfix => "Bugfix"@,
        TaskType::Feature => "Feature"@,
        TaskType::Refactor => "Refactor"@,
        TaskType::Migration => "Migration"@,
        TaskType::Performance => "Performance"@,
        TaskType::Build => "Build"@,
        TaskType::Deployment => "Deployment"@,
        TaskType::Testing => "Testing"@,
        TaskType::Configuration => "Configuration"@,
        TaskType::Dependency => "Dependency"@,
        TaskType::Other => "Other"@,
    }
}

impl core::str::FromStr for TaskType {
    type Err = String;

    fn from_str(value: &str) -> (r: Result<TaskType, String>)
        ensures
            match task_type_named(lowercase_of(trimmed(value@))) {
                Some(t) => r == Ok::<TaskType, String>(t),
                None => r matches Err(m) && m@ == unknown_message("task type"@, lowercase_of(
                    trimmed(value@),
                )),
            },
            is_ascii_text(value@) ==> lowercase_of(trimmed(value@)) == ascii_lower(trimmed(value@)),
    {
        TaskType::parse(value)
    }
}

/// A task as recorded in an experience.
#[derive(Debug, Clone)]
pub struct TaskRecord {
    pub summary: String,
    pub task_type: TaskType,
    pub hypothesis: Option<String>,
}

impl Default for TaskRecord {
    fn default() -> (r: Self)
        ensures
            r.summary@.len() == 0,
            r.task_type == TaskType::Other,
            r.hypothesis is None,
    {
        TaskRecord { summary: String::new(), task_type: TaskType::Other, hypothesis: None }
    }
}

/// What was tried and what finally worked.
#[derive(Debug, Clone)]
pub struct TrajectorySummary {
    pub failed_attempts: Vec<String>,
    pub successful_decision: String,
}

impl Default for TrajectorySummary {
    fn default() -> (r: Self)
        ensures
            r.failed_attempts@.len() == 0,
            r.successful_decision@.len() == 0,
    {
        TrajectorySummary { failed_attempts: Vec::new(), successful_decision: String::new() }
    }
}

/// What verified an experience.
#[derive(Debug, Clone, Copy, PartialEq, Eq, Structural)]
pub enum VerificationSource {
    Test,
    Build,
    Lint,
    Ci,
    Human,
    Custom,
    Unspecified,
}

impl Default for VerificationSource {
    fn default() -> (r: Self)
        ensures
            r == VerificationSource::Unspecified,
    {
        VerificationSource::Unspecified
    }
}

/// The verification source a (trimmed, lowercased) name stands for, aliases included.
pub open spec fn source_named(name: Seq<char>) -> Option<VerificationSource> {
    if name == "test"@ || name == "tests"@ {
        Some(VerificationSource::Test)
    } else if name == "build"@ {
        Some(VerificationSource::Build)
    } else if name == "lint"@ {
        Some(VerificationSource::Lint)
    } else if name == "ci"@ {
        Some(VerificationSource::Ci)
    } else if name == "human"@ || name == "approval"@ {
        Some(VerificationSource::Human)
    } else if name == "custom"@ {
        Some(VerificationSource::Custom)
    } else if name == "unspecified"@ || name == "unknown"@ {
        Some(VerificationSource::Unspecified)
    } else {
        None
    }
}

/// The name a verification source is stored and sent under.
pub open spec fn source_name(s: VerificationSource) -> Seq<char> {
    match s {
        VerificationSource::Test => "test"@,
        VerificationSource::Build => "build"@,
        VerificationSource::Lint => "lint"@,
        VerificationSource::Ci => "ci"@,
        VerificationSource::Human => "human"@,
        VerificationSource::Custom => "custom"@,
        VerificationSource::Unspecified => "unspecified"@,
    }
}

impl VerificationSource {
    /// Reads a verification source from user input: surrounding white space is
    /// ignored, case is folded, and `tests`, `approval`, `unknown` are accepted as aliases.
    pub fn parse(value: &str) -> (r: Result<VerificationSource, String>)
        ensures
            match source_named(lowercase_of(trimmed(value@))) {
                Some(s) => r == Ok::<VerificationSource, String>(s),
                None => r matches Err(m) && m@ == unknown_message(
                    "verification source"@,
                    lowercase_of(trimmed(value@)),
                ),
            },
            is_ascii_text(value@) ==> lowercase_of(trimmed(value@)) == ascii_lower(trimmed(value@)),
    {
        proof {
            if is_ascii_text(value@) {
                lemma_trimmed_ascii(value@);
            }
        }
        let key = lowercase(trim(value).as_str());
        let k = key.as_str();
        if text_eq(k, "test") || text_eq(k, "tests") {
            Ok(VerificationSource::Test)
        } else if text_eq(k, "build") {
            Ok(VerificationSource::Build)
        } else if text_eq(k, "lint") {
            Ok(VerificationSource::Lint)
        } else if text_eq(k, "ci") {
            Ok(VerificationSource::Ci)
        } else if text_eq(k, "human") || text_eq(k, "approval") {
            Ok(VerificationSource::Human)
        } else if text_eq(k, "custom") {
            Ok(VerificationSource::Custom)
        } else if text_eq(k, "unspecified") || text_eq(k, "unknown") {
            Ok(VerificationSource::Unspecified)
        } else {
            Err(unknown_name("verification source", k))
        }
    }

    /// The variant's name as `Debug` prints it.
    pub fn label(&self) -> (r: &'static str)
        ensures
            r@ == source_label(*self),
    {
        match self {
            VerificationSource::Test => "Test",
            VerificationSource::Build => "Build",
            VerificationSource::Lint => "Lint",
            VerificationSource::Ci => "Ci",
            VerificationSource::Human => "Human",
            VerificationSource::Custom => "Custom",
            VerificationSource::Unspecified => "Unspecified",
        }
    }
}

/// The name `Debug` prints for a verification source.
pub open spec fn source_label(s: VerificationSource) -> Seq<char> {
    match s {
        VerificationSource::Test => "Test"@,
        VerificationSource::Build => "Build"@,
        VerificationSource::Lint => "Lint"@,
        VerificationSource::Ci => "Ci"@,
        VerificationSource::Human => "Human"@,
        VerificationSource::Custom => "Custom"@,
        VerificationSource::Unspecified => "Unspecified"@,
    }
}

impl core::str::FromStr for VerificationSource {
    type Err = String;

    fn from_str(value: &str) -> (r: Result<VerificationSource, String>)
        ensures
            match source_named(lowercase_of(trimmed(value@))) {
                Some(s) => r == Ok::<VerificationSource, String>(s),
                None => r matches Err(m) && m@ == unknown_message(
                    "verification source"@,
                    lowercase_of(trimmed(value@)),
                ),
            },
            is_ascii_text(value@) ==> lowercase_of(trimmed(value@)) == ascii_lower(trimmed(value@)),
    {
        VerificationSource::parse(value)
    }
}

/// How a verification ended.
#[derive(Debug, Clone, Copy, PartialEq, Eq, Structural)]
pub enum VerificationResult {
    Passed,
    Failed,
    Unknown,
}

impl Default for VerificationResult {
    fn default() -> (r: Self)
        ensures
            r == VerificationResult::Unknown,
    {
        VerificationResult::Unknown
    }
}

impl VerificationResult {
    /// The variant's name as `Debug` prints it.
    pub fn label(&self) -> (r: &'static str)
        ensures
            r@ == result_label(*self),
    {
        match self {
            VerificationResult::Passed => "Passed",
            VerificationResult::Failed => "Failed",
            VerificationResult::Unknown => "Unknown",
        }
    }
}

/// The name `Debug` prints for a verification result.
pub open spec fn result_label(r: VerificationResult) -> Seq<char> {
    match r {
        VerificationResult::Passed => "Passed"@,
        VerificationResult::Failed => "Failed"@,
        VerificationResult::Unknown => "Unknown"@,
    }
}

/// The evidence that verified an experience.
#[derive(Debug, Clone)]
pub struct VerificationEvidence {
    pub source: VerificationSource,
    pub result: VerificationResult,
    pub command: Option<String>,
    pub reference: Option<String>,
    pub run_id: Option<String>,
    pub test_id: Option<String>,
    pub target_url: Option<String>,
    pub dashboard_url: Option<String>,
    pub files_changed: Vec<String>,
}

/// Evidence that says nothing: unspecified source, unknown result, no details.
pub open spec fn is_blank_verification(v: VerificationEvidence) -> bool {
    &&& v.source == VerificationSource::Unspecified
    &&& v.result == VerificationResult::Unknown
    &&& v.command is None
    &&& v.reference is None
    &&& v.run_id is None
    &&& v.test_id is None
    &&& v.target_url is None
    &&& v.dashboard_url is None
    &&& v.files_changed@.len() == 0
}

impl Default for VerificationEvidence {
    fn default() -> (r: Self)
        ensures
            is_blank_verification(r),
    {
        VerificationEvidence {
            source: VerificationSource::Unspecified,
            result: VerificationResult::Unknown,
            command: None,
            reference: None,
            run_id: None,
            test_id: None,
            target_url: None,
            dashboard_url: None,
            files_changed: Vec::new(),
        }
    }
}

/// Where the change lives in version control, and who made it.
#[derive(Debug, Clone)]
pub struct CodeEvidence {
    pub commit_sha: Option<String>,
    pub branch: Option<String>,
    pub agent: Option<String>,
    pub files_changed: Vec<String>,
}

impl Default for CodeEvidence {
    fn default() -> (r: Self)
        ensures
            r.commit_sha is None,
            r.branch is None,
            r.agent is None,
            r.files_changed@.len() == 0,
    {
        CodeEvidence { commit_sha: None, branch: None, agent: None, files_changed: Vec::new() }
    }
}

/// How an experience turned out.
#[derive(Debug, Clone, Copy, PartialEq, Eq, Structural)]
pub enum ExperienceOutcome {
    VerifiedSuccess,
    VerifiedFailure,
    Unverified,
}

impl Default for ExperienceOutcome {
    fn default() -> (r: Self)
        ensures
            r == ExperienceOutcome::Unverified,
    {
        ExperienceOutcome::Unverified
    }
}

impl ExperienceOutcome {
    /// The variant's name as `Debug` prints it.
    pub fn label(&self) -> (r: &'static str)
        ensures
            r@ == outcome_label(*self),
    {
        match self {
            ExperienceOutcome::VerifiedSuccess => "VerifiedSuccess",
            ExperienceOutcome::VerifiedFailure => "VerifiedFailure",
            ExperienceOutcome::Unverified => "Unverified",
        }
    }
}

/// The name `Debug` prints for an outcome.
pub open spec fn outcome_label(o: ExperienceOutcome) -> Seq<char> {
    match o {
        ExperienceOutcome::VerifiedSuccess => "VerifiedSuccess"@,
        ExperienceOutcome::VerifiedFailure => "VerifiedFailure"@,
        ExperienceOutcome::Unverified => "Unverified"@,
    }
}

/// Where an experience applies: this project, this stack, everywhere.
#[derive(Debug, Clone, Copy, PartialEq, Eq, Structural)]
pub struct MemoryScope {
    pub project: bool,
    pub stack: bool,
    pub global: bool,
}

impl Default for MemoryScope {
    fn default() -> (r: Self)
        ensures
            r == (MemoryScope { project: true, stack: true, global: false }),
    {
        MemoryScope { project: true, stack: true, global: false }
    }
}

/// The value a scope flag takes when a stored record leaves it out.
pub fn default_true() -> (r: bool)
    ensures
        r,
{
    true
}

/// A confidence in `[0, 1]`, kept as the bit pattern of the `f32` it was given as.
#[derive(Debug, Clone, Copy, PartialEq, Eq, Structural)]
pub struct Confidence {
    pub bits: u32,
}

impl Confidence {
    /// Whether the `f32` with these bits lies in `0.0..=1.0` under IEEE-754
    /// comparison: non-negative floats order like their bit patterns, `1.0` is
    /// `0x3F80_0000`, `-0.0` (`0x8000_0000`) compares equal to `0.0`, and every
    /// NaN and every other negative value falls outside.
    pub open spec fn in_unit_interval(self) -> bool {
        self.bits <= 0x3F80_0000 || self.bits == 0x8000_0000
    }

    /// Tests whether the confidence lies in `0.0..=1.0`.
    pub fn is_in_unit_interval(&self) -> (r: bool)
        ensures
            r == self.in_unit_interval(),
    {
        self.bits <= 0x3F80_0000 || self.bits == 0x8000_0000
    }
}

/// One verified piece of engineering experience.
#[derive(Debug, Clone)]
pub struct EngineeringExperience {
    pub id: String,
    pub created_at: Timestamp,
    pub verified_at: Timestamp,
    pub task: TaskRecord,
    pub context: ProjectContext,
    pub trajectory: TrajectorySummary,
    pub lesson: String,
    pub verification: VerificationEvidence,
    pub outcome: ExperienceOutcome,
    pub evidence: CodeEvidence,
    pub scope: MemoryScope,
    pub confidence: Confidence,
}

/// The name experiences went by when the memory only held repairs.
pub type RepairExperience = EngineeringExperience;

/// What a learning request brings.
#[derive(Debug, Clone)]
pub struct LearnInput {
    pub task: String,
    pub task_type: TaskType,
    pub hypothesis: Option<String>,
    pub failed_attempts: Vec<String>,
    pub successful_decision: String,
    pub files: Vec<String>,
    pub lesson: String,
    pub verification: VerificationEvidence,
    pub evidence: CodeEvidence,
    pub scope: MemoryScope,
    pub confidence: Confidence,
}

/// What a recall request brings.
#[derive(Debug, Clone)]
pub struct RecallInput {
    pub task: String,
    pub task_type: Option<TaskType>,
    pub files: Vec<String>,
    pub languages: Vec<String>,
    pub frameworks: Vec<String>,
    pub top_k: usize,
}

} // verus!
