//! The decisions of the command line: which query a recall runs, and what a
//! `learn` command stores.

use vstd::prelude::*;
use crate::model::{
    CodeEvidence, Confidence, LearnInput, MemoryScope, TaskType, VerificationEvidence,
    VerificationResult, VerificationSource,
};
use crate::text::{clone_strings, trim, trimmed};

verus! {

/// Where a recall's query text comes from.
#[derive(Debug, Clone)]
pub enum QuerySource {
    Task(String),
    FailureBundle,
    Missing,
}

/// Chooses the query of a recall: the task (or its legacy spelling,
/// `--problem`) when no failure bundle is given, the bundle when no task is,
/// and nothing otherwise.
pub fn query_source(task: Option<String>, legacy_problem: Option<String>, has_failure_bundle: bool) -> (r: QuerySource)
    ensures
        match (if task is Some { task } else { legacy_problem }) {
            Some(t) => if has_failure_bundle { r is Missing } else { r == QuerySource::Task(t) },
            None => if has_failure_bundle { r is FailureBundle } else { r is Missing },
        },
{
    let text = match task {
        Some(t) => Some(t),
        None => legacy_problem,
    };
    match text {
        Some(t) => if has_failure_bundle { QuerySource::Missing } else { QuerySource::Task(t) },
        None => if has_failure_bundle { QuerySource::FailureBundle } else { QuerySource::Missing },
    }
}

/// Why the command line refused a command.
#[derive(Debug, Clone, Copy, PartialEq, Eq, Structural)]
pub enum CliError {
    NotVerified,
    TaskRequired,
    QueryRequired,
}

impl CliError {
    /// The message of the refusal.
    pub fn message(&self) -> (r: &'static str)
        ensures
            r@ == match *self {
                CliError::NotVerified => "learn requires --verified after successful verification"@,
                CliError::TaskRequired => "--task is required"@,
                CliError::QueryRequired => "provide --task or --failure-bundle"@,
            },
    {
        match self {
            CliError::NotVerified => "learn requires --verified after successful verification",
            CliError::TaskRequired => "--task is required",
            CliError::QueryRequired => "provide --task or --failure-bundle",
        }
    }
}

/// The task a `learn` command stores: refused unless the command says the work
/// was verified (`--verified`, or its legacy spelling), then the task or its
/// legacy spelling `--problem`.
pub fn learn_command_task(
    verified: bool,
    legacy_verified_pass: bool,
    task: Option<String>,
    legacy_problem: Option<String>,
) -> (r: Result<String, CliError>)
    ensures
        !verified && !legacy_verified_pass ==> r == Err::<String, CliError>(CliError::NotVerified),
        verified || legacy_verified_pass ==> match (if task is Some { task } else { legacy_problem }) {
            Some(t) => r == Ok::<String, CliError>(t),
            None => r == Err::<String, CliError>(CliError::TaskRequired),
        },
{
    if !verified && !legacy_verified_pass {
        return Err(CliError::NotVerified);
    }
    match task {
        Some(t) => Ok(t),
        None => match legacy_problem {
            Some(p) => Ok(p),
            None => Err(CliError::TaskRequired),
        },
    }
}

/// The options of a `learn` command, once parsed.
#[derive(Debug, Clone)]
pub struct LearnCommand {
    pub task_type: TaskType,
    pub hypothesis: Option<String>,
    pub failed_attempts: Vec<String>,
    pub successful_decision: String,
    pub files: Vec<String>,
    pub legacy_patches: Vec<String>,
    pub lesson: String,
    pub verification_source: VerificationSource,
    pub verification_command: Option<String>,
    pub verification_reference: Option<String>,
    pub run_id: Option<String>,
    pub test_id: Option<String>,
    pub target_url: Option<String>,
    pub dashboard_url: Option<String>,
    pub agent: Option<String>,
    pub files_changed: Vec<String>,
    pub global_scope: bool,
    pub confidence: Confidence,
}

/// The learning request a `learn` command makes, given its task and the
/// commit and branch it names or that version control reports: the files
/// fall back on the legacy `--patch` list, the changed files on the files;
/// the verification counts as passed; the scope is this project and stack,
/// and everywhere if asked.
pub open spec fn command_input(cmd: LearnCommand, task: String, commit: Option<String>, branch: Option<String>, input: LearnInput) -> bool {
    let files = if cmd.files@.len() == 0 { cmd.legacy_patches@ } else { cmd.files@ };
    let changed = if cmd.files_changed@.len() == 0 { files } else { cmd.files_changed@ };
    &&& input.task == task
    &&& input.task_type == cmd.task_type
    &&& input.hypothesis == cmd.hypothesis
    &&& input.failed_attempts == cmd.failed_attempts
    &&& input.successful_decision == cmd.successful_decision
    &&& input.files@ == files
    &&& input.lesson == cmd.lesson
    &&& input.verification.source == cmd.verification_source
    &&& input.verification.result == VerificationResult::Passed
    &&& input.verification.command == cmd.verification_command
    &&& input.verification.reference == cmd.verification_reference
    &&& input.verification.run_id == cmd.run_id
    &&& input.verification.test_id == cmd.test_id
    &&& input.verification.target_url == cmd.target_url
    &&& input.verification.dashboard_url == cmd.dashboard_url
    &&& input.verification.files_changed@ == changed
    &&& input.evidence.commit_sha == commit
    &&& input.evidence.branch == branch
    &&& input.evidence.agent == cmd.agent
    &&& input.evidence.files_changed@ == changed
    &&& input.scope == (MemoryScope { project: true, stack: true, global: cmd.global_scope })
    &&& input.confidence == cmd.confidence
}

/// Builds the learning request of a `learn` command.
pub fn learn_command_input(cmd: LearnCommand, task: String, commit: Option<String>, branch: Option<String>) -> (r: LearnInput)
    ensures
        command_input(cmd, task, commit, branch, r),
{
    let files = if cmd.files.len() == 0 { cmd.legacy_patches } else { cmd.files };
    let changed = if cmd.files_changed.len() == 0 { clone_strings(&files) } else { cmd.files_changed };
    LearnInput {
        task,
        task_type: cmd.task_type,
        hypothesis: cmd.hypothesis,
        failed_attempts: cmd.failed_attempts,
        successful_decision: cmd.successful_decision,
        files,
        lesson: cmd.lesson,
        verification: VerificationEvidence {
            source: cmd.verification_source,
            result: VerificationResult::Passed,
            command: cmd.verification_command,
            reference: cmd.verification_reference,
            run_id: cmd.run_id,
            test_id: cmd.test_id,
            target_url: cmd.target_url,
            dashboard_url: cmd.dashboard_url,
            files_changed: clone_strings(&changed),
        },
        evidence: CodeEvidence { commit_sha: commit, branch, agent: cmd.agent, files_changed: changed },
        scope: MemoryScope { project: true, stack: true, global: cmd.global_scope },
        confidence: cmd.confidence,
    }
}

/// What a version-control query reports: its output trimmed, if anything is left.
pub fn git_output_value(output: &str) -> (r: Option<String>)
    ensures
        trimmed(output@).len() == 0 ==> r is None,
        trimmed(output@).len() > 0 ==> (r matches Some(v) && v@ == trimmed(output@)),
{
    let value = trim(output);
    if value.as_str().is_empty() {
        None
    } else {
        Some(value)
    }
}

} // verus!
