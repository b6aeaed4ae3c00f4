//! Building experiences: from a learning request, from stored records of any
//! shape, and the text that recall searches in them.

use vstd::prelude::*;
use crate::model::{
    is_blank_verification, is_default_context, CodeEvidence, Confidence, EngineeringExperience,
    ExperienceOutcome, LearnInput, MemoryScope, ProjectContext, TaskRecord, TaskType,
    TrajectorySummary, VerificationEvidence, VerificationResult, VerificationSource,
};
use crate::text::{
    clone_strings, decimal, decimal_text, join, joined, lemma_decimal_injective, lemma_decimal_shape,
    opt_text, trim, trimmed, views,
};
use crate::time::Timestamp;

verus! {

/// Why the memory refused a request.
#[derive(Debug, Clone, Copy, PartialEq, Eq, Structural)]
pub enum MemoryError {
    NotInitialized,
    TaskRequired,
    DecisionRequired,
    LessonRequired,
    FailedVerification,
    ConfidenceOutOfRange,
    ClockUnavailable,
}

impl MemoryError {
    /// The message shown for this refusal.
    pub fn message(&self) -> (r: &'static str)
        ensures
            r@ == error_message(*self),
    {
        match self {
            MemoryError::NotInitialized => "LoopLens is not initialized. Run `looplens init` first.",
            MemoryError::TaskRequired => "task is required",
            MemoryError::DecisionRequired => "successful decision is required",
            MemoryError::LessonRequired => "lesson is required",
            MemoryError::FailedVerification => "learn stores verified successes; record failed attempts in the trajectory",
            MemoryError::ConfidenceOutOfRange => "confidence must be between 0.0 and 1.0",
            MemoryError::ClockUnavailable => "the clock reads an instant that cannot be recorded",
        }
    }
}

/// The message of each refusal.
pub open spec fn error_message(e: MemoryError) -> Seq<char> {
    match e {
        MemoryError::NotInitialized => "LoopLens is not initialized. Run `looplens init` first."@,
        MemoryError::TaskRequired => "task is required"@,
        MemoryError::DecisionRequired => "successful decision is required"@,
        MemoryError::LessonRequired => "lesson is required"@,
        MemoryError::FailedVerification => "learn stores verified successes; record failed attempts in the trajectory"@,
        MemoryError::ConfidenceOutOfRange => "confidence must be between 0.0 and 1.0"@,
        MemoryError::ClockUnavailable => "the clock reads an instant that cannot be recorded"@,
    }
}

/// The first reason, if any, to refuse a learning request: a blank task, a
/// blank decision, a blank lesson, a failed verification, a confidence outside
/// `[0, 1]`, checked in that order.
pub open spec fn learn_refusal(input: LearnInput) -> Option<MemoryError> {
    if trimmed(input.task@).len() == 0 {
        Some(MemoryError::TaskRequired)
    } else if trimmed(input.successful_decision@).len() == 0 {
        Some(MemoryError::DecisionRequired)
    } else if trimmed(input.lesson@).len() == 0 {
        Some(MemoryError::LessonRequired)
    } else if input.verification.result == VerificationResult::Failed {
        Some(MemoryError::FailedVerification)
    } else if !input.confidence.in_unit_interval() {
        Some(MemoryError::ConfidenceOutOfRange)
    } else {
        None
    }
}

/// Checks a learning request before anything is stored.
pub fn validate_learn_input(input: &LearnInput) -> (r: Result<(), MemoryError>)
    ensures
        match learn_refusal(*input) {
            Some(e) => r == Err::<(), MemoryError>(e),
            None => r is Ok,
        },
{
    if trim(input.task.as_str()).as_str().is_empty() {
        return Err(MemoryError::TaskRequired);
    }
    if trim(input.successful_decision.as_str()).as_str().is_empty() {
        return Err(MemoryError::DecisionRequired);
    }
    if trim(input.lesson.as_str()).as_str().is_empty() {
        return Err(MemoryError::LessonRequired);
    }
    if input.verification.result == VerificationResult::Failed {
        return Err(MemoryError::FailedVerification);
    }
    if !input.confidence.is_in_unit_interval() {
        return Err(MemoryError::ConfidenceOutOfRange);
    }
    Ok(())
}

/// The id of the `n`-th experience: `EXP-` and `n` in decimal, zero-padded to
/// three digits.
pub open spec fn experience_id(n: nat) -> Seq<char> {
    "EXP-"@ + (if n < 10 {
        seq!['0', '0']
    } else if n < 100 {
        seq!['0']
    } else {
        Seq::empty()
    }) + decimal(n)
}

/// Different positions give different experience ids, so the id given to a
/// new experience is none of the ids before it.
pub proof fn lemma_experience_ids_distinct(a: nat, b: nat)
    requires
        a != b,
    ensures
        experience_id(a) != experience_id(b),
{
    lemma_decimal_shape(a);
    lemma_decimal_shape(b);
    reveal_strlit("EXP-");
    if experience_id(a) == experience_id(b) {
        let pa: Seq<char> = if a < 10 { seq!['0', '0'] } else if a < 100 { seq!['0'] } else { Seq::empty() };
        let pb: Seq<char> = if b < 10 { seq!['0', '0'] } else if b < 100 { seq!['0'] } else { Seq::empty() };
        let wa = pa + decimal(a);
        let wb = pb + decimal(b);
        assert(experience_id(a) =~= "EXP-"@ + wa);
        assert(experience_id(b) =~= "EXP-"@ + wb);
        assert(wa =~= experience_id(a).skip(4));
        assert(wb =~= experience_id(b).skip(4));
        if pa.len() == pb.len() {
            assert(decimal(a) =~= wa.skip(pa.len() as int));
            assert(decimal(b) =~= wb.skip(pb.len() as int));
            lemma_decimal_injective(a, b);
        } else if pa.len() > pb.len() {
            assert(wa[pb.len() as int] == '0');
            assert(wb[pb.len() as int] == decimal(b)[0]);
        } else {
            assert(wb[pa.len() as int] == '0');
            assert(wa[pa.len() as int] == decimal(a)[0]);
        }
    }
}

/// Names the `next`-th experience.
pub fn next_id(next: usize) -> (r: String)
    ensures
        r@ == experience_id(next as nat),
{
    let mut out = String::from_str("EXP-");
    if next < 10 {
        out.append("00");
    } else if next < 100 {
        out.append("0");
    }
    proof {
        reveal_strlit("00");
        reveal_strlit("0");
    }
    out.append(decimal_text(next as u64).as_str());
    out
}

/// The text of an experience that task terms are matched against: summary,
/// hypothesis, failed attempts, decision, changed files of both kinds and
/// lesson, separated by spaces.
pub open spec fn experience_text_of(e: EngineeringExperience) -> Seq<char> {
    e.task.summary@ + " "@ + opt_text(e.task.hypothesis) + " "@ + joined(
        views(e.trajectory.failed_attempts@),
        " "@,
    ) + " "@ + e.trajectory.successful_decision@ + " "@ + joined(
        views(e.verification.files_changed@),
        " "@,
    ) + " "@ + joined(views(e.evidence.files_changed@), " "@) + " "@ + e.lesson@
}

fn append_opt(out: &mut String, o: &Option<String>)
    ensures
        final(out)@ == old(out)@ + opt_text(*o),
{
    match o {
        Some(s) => out.append(s.as_str()),
        None => {},
    }
}

/// Writes the text of an experience that task terms are matched against.
pub fn experience_text(e: &EngineeringExperience) -> (r: String)
    ensures
        r@ == experience_text_of(*e),
{
    let mut out = String::new();
    out.append(e.task.summary.as_str());
    out.append(" ");
    append_opt(&mut out, &e.task.hypothesis);
    out.append(" ");
    out.append(join(&e.trajectory.failed_attempts, " ").as_str());
    out.append(" ");
    out.append(e.trajectory.successful_decision.as_str());
    out.append(" ");
    out.append(join(&e.verification.files_changed, " ").as_str());
    out.append(" ");
    out.append(join(&e.evidence.files_changed, " ").as_str());
    out.append(" ");
    out.append(e.lesson.as_str());
    assert(out@ =~= experience_text_of(*e));
    out
}

/// The text of an experience's stack that stack terms are matched against:
/// languages, frameworks, runtime and package manager, separated by spaces.
pub open spec fn context_text_of(e: EngineeringExperience) -> Seq<char> {
    joined(views(e.context.languages@), " "@) + " "@ + joined(views(e.context.frameworks@), " "@)
        + " "@ + opt_text(e.context.runtime) + " "@ + opt_text(e.context.package_manager)
}

/// Writes the text of an experience's stack.
pub fn experience_context_text(e: &EngineeringExperience) -> (r: String)
    ensures
        r@ == context_text_of(*e),
{
    let mut out = String::new();
    out.append(join(&e.context.languages, " ").as_str());
    out.append(" ");
    out.append(join(&e.context.frameworks, " ").as_str());
    out.append(" ");
    append_opt(&mut out, &e.context.runtime);
    out.append(" ");
    append_opt(&mut out, &e.context.package_manager);
    assert(out@ =~= context_text_of(*e));
    out
}


/// Evidence fields of first-version records, which kept verifier details
/// beside the code evidence.
#[derive(Debug, Clone)]
pub struct LegacyEvidence {
    pub run_id: Option<String>,
    pub test_id: Option<String>,
    pub target_url: Option<String>,
    pub dashboard_url: Option<String>,
    pub commit_sha: Option<String>,
    pub branch: Option<String>,
    pub agent: Option<String>,
    pub files_changed: Vec<String>,
}

impl Default for LegacyEvidence {
    fn default() -> (r: Self)
        ensures
            r.run_id is None,
            r.test_id is None,
            r.target_url is None,
            r.dashboard_url is None,
            r.commit_sha is None,
            r.branch is None,
            r.agent is None,
            r.files_changed@.len() == 0,
    {
        LegacyEvidence {
            run_id: None,
            test_id: None,
            target_url: None,
            dashboard_url: None,
            commit_sha: None,
            branch: None,
            agent: None,
            files_changed: Vec::new(),
        }
    }
}

/// The verdict first-version records carried (`verified: PASS`).
#[derive(Debug, Clone, Copy, PartialEq, Eq, Structural)]
pub enum LegacyVerificationStatus {
    Pass,
}

/// A stored experience record of either shape, current or first-version, as
/// read field by field: whatever a record leaves out is `None` (or empty).
#[derive(Debug, Clone)]
pub struct StoredRecord {
    pub id: String,
    pub created_at: Timestamp,
    pub verified_at: Option<Timestamp>,
    pub task: Option<TaskRecord>,
    pub problem: Option<String>,
    pub task_type: Option<TaskType>,
    pub context: Option<ProjectContext>,
    pub hypothesis: Option<String>,
    pub trajectory: Option<TrajectorySummary>,
    pub trajectory_summary: Option<TrajectorySummary>,
    pub patches: Vec<String>,
    pub lesson: String,
    pub verification: Option<VerificationEvidence>,
    pub verified: Option<LegacyVerificationStatus>,
    pub outcome: Option<ExperienceOutcome>,
    pub evidence: Option<LegacyEvidence>,
    pub scope: MemoryScope,
    pub confidence: Confidence,
}

/// The first of two optional values that is present.
pub open spec fn first_present<A>(a: Option<A>, b: Option<A>) -> Option<A> {
    match a {
        Some(x) => Some(x),
        None => b,
    }
}

fn either(a: Option<String>, b: Option<String>) -> (r: Option<String>)
    ensures
        r == first_present(a, b),
{
    match a {
        Some(x) => Some(x),
        None => b,
    }
}

/// The summary a stored record's task gets: its own, unless blank, else the
/// first-version `problem`.
pub open spec fn migrated_summary(rec: StoredRecord) -> Seq<char> {
    let own = match rec.task {
        Some(t) => t.summary@,
        None => Seq::empty(),
    };
    if trimmed(own).len() == 0 {
        opt_text(rec.problem)
    } else {
        own
    }
}

/// The changed files a stored record's code evidence gets: its own, unless
/// there are none, else the first-version `patches`.
pub open spec fn migrated_code_files(rec: StoredRecord) -> Seq<String> {
    let own = match rec.evidence {
        Some(e) => e.files_changed@,
        None => Seq::empty(),
    };
    if own.len() == 0 {
        rec.patches@
    } else {
        own
    }
}

/// The detail a stored record's verification keeps of one kind: its own, else
/// the one the first-version evidence carried.
pub open spec fn migrated_detail(own: Option<String>, legacy: Option<LegacyEvidence>, pick: spec_fn(LegacyEvidence) -> Option<String>) -> Option<String> {
    first_present(
        own,
        match legacy {
            Some(e) => pick(e),
            None => None,
        },
    )
}

/// What a stored record of either shape becomes once migrated to the current
/// shape. Absent parts take their defaults; a first-version `verified: PASS`
/// marks an unspecified source as custom and an unknown result as passed; the
/// first-version verifier details move into the verification evidence; an
/// absent verification time is the creation time; an absent outcome is a
/// verified success.
pub open spec fn migrated(rec: StoredRecord, e: EngineeringExperience) -> bool {
    let v = e.verification;
    let own_verification = rec.verification;
    let pass = rec.verified is Some;
    &&& e.id == rec.id
    &&& e.created_at == rec.created_at
    &&& e.verified_at == (match rec.verified_at { Some(t) => t, None => rec.created_at })
    &&& e.task.summary@ == migrated_summary(rec)
    &&& e.task.task_type == (match rec.task_type {
        Some(t) => t,
        None => match rec.task { Some(t) => t.task_type, None => TaskType::Other },
    })
    &&& e.task.hypothesis == first_present(
        first_present(
            match rec.task { Some(t) => t.hypothesis, None => None },
            rec.hypothesis,
        ),
        match own_verification { Some(ov) => ov.reference, None => None },
    )
    &&& match rec.context {
        Some(c) => e.context == c,
        None => is_default_context(e.context),
    }
    &&& match first_present(rec.trajectory, rec.trajectory_summary) {
        Some(t) => e.trajectory == t,
        None => e.trajectory.failed_attempts@.len() == 0 && e.trajectory.successful_decision@.len() == 0,
    }
    &&& e.lesson == rec.lesson
    &&& match own_verification {
        Some(ov) => {
            &&& v.source == (if ov.source == VerificationSource::Unspecified && pass {
                VerificationSource::Custom
            } else {
                ov.source
            })
            &&& v.result == (if ov.result == VerificationResult::Unknown && pass {
                VerificationResult::Passed
            } else {
                ov.result
            })
            &&& v.command == ov.command
            &&& v.reference == ov.reference
            &&& v.run_id == migrated_detail(ov.run_id, rec.evidence, |l: LegacyEvidence| l.run_id)
            &&& v.test_id == migrated_detail(ov.test_id, rec.evidence, |l: LegacyEvidence| l.test_id)
            &&& v.target_url == migrated_detail(ov.target_url, rec.evidence, |l: LegacyEvidence| l.target_url)
            &&& v.dashboard_url == migrated_detail(ov.dashboard_url, rec.evidence, |l: LegacyEvidence| l.dashboard_url)
            &&& v.files_changed@ == (if ov.files_changed@.len() == 0 {
                migrated_code_files(rec)
            } else {
                ov.files_changed@
            })
        },
        None => {
            &&& v.source == (if pass { VerificationSource::Custom } else { VerificationSource::Unspecified })
            &&& v.result == (if pass { VerificationResult::Passed } else { VerificationResult::Unknown })
            &&& v.command is None
            &&& v.reference is None
            &&& v.run_id == migrated_detail(None, rec.evidence, |l: LegacyEvidence| l.run_id)
            &&& v.test_id == migrated_detail(None, rec.evidence, |l: LegacyEvidence| l.test_id)
            &&& v.target_url == migrated_detail(None, rec.evidence, |l: LegacyEvidence| l.target_url)
            &&& v.dashboard_url == migrated_detail(None, rec.evidence, |l: LegacyEvidence| l.dashboard_url)
            &&& v.files_changed@ == migrated_code_files(rec)
        },
    }
    &&& e.outcome == (match rec.outcome { Some(o) => o, None => ExperienceOutcome::VerifiedSuccess })
    &&& e.evidence.commit_sha == (match rec.evidence { Some(l) => l.commit_sha, None => None })
    &&& e.evidence.branch == (match rec.evidence { Some(l) => l.branch, None => None })
    &&& e.evidence.agent == (match rec.evidence { Some(l) => l.agent, None => None })
    &&& e.evidence.files_changed@ == migrated_code_files(rec)
    &&& e.scope == rec.scope
    &&& e.confidence == rec.confidence
}

/// `rec` is what reading back a record written in the current shape gives for
/// `e`: every current field present, no first-version field, and the code
/// evidence read as first-version evidence without verifier details.
pub open spec fn records_current_shape(rec: StoredRecord, e: EngineeringExperience) -> bool {
    &&& rec.id == e.id
    &&& rec.created_at == e.created_at
    &&& rec.verified_at == Some(e.verified_at)
    &&& rec.task == Some(e.task)
    &&& rec.problem is None
    &&& rec.task_type is None
    &&& rec.context == Some(e.context)
    &&& rec.hypothesis is None
    &&& rec.trajectory == Some(e.trajectory)
    &&& rec.trajectory_summary is None
    &&& rec.patches@.len() == 0
    &&& rec.lesson == e.lesson
    &&& rec.verification == Some(e.verification)
    &&& rec.verified is None
    &&& rec.outcome == Some(e.outcome)
    &&& match rec.evidence {
        Some(l) => {
            &&& l.run_id is None
            &&& l.test_id is None
            &&& l.target_url is None
            &&& l.dashboard_url is None
            &&& l.commit_sha == e.evidence.commit_sha
            &&& l.branch == e.evidence.branch
            &&& l.agent == e.evidence.agent
            &&& l.files_changed@ == e.evidence.files_changed@
        },
        None => false,
    }
    &&& rec.scope == e.scope
    &&& rec.confidence == e.confidence
}

/// `x` is what reading back `e` gives: `e` itself, texts and lists compared by
/// their contents, except that reading fills in what `e` left open. A
/// whitespace-only task summary reads back empty, a missing hypothesis is taken
/// from the verification reference, and verification without changed files
/// takes those of the code evidence.
pub open spec fn reads_back_as(x: EngineeringExperience, e: EngineeringExperience) -> bool {
    &&& x.id@ == e.id@
    &&& x.created_at == e.created_at
    &&& x.verified_at == e.verified_at
    &&& x.task.summary@ == (if trimmed(e.task.summary@).len() == 0 { Seq::empty() } else { e.task.summary@ })
    &&& x.task.task_type == e.task.task_type
    &&& x.task.hypothesis == first_present(e.task.hypothesis, e.verification.reference)
    &&& x.context == e.context
    &&& x.trajectory == e.trajectory
    &&& x.lesson@ == e.lesson@
    &&& x.verification.source == e.verification.source
    &&& x.verification.result == e.verification.result
    &&& x.verification.command == e.verification.command
    &&& x.verification.reference == e.verification.reference
    &&& x.verification.run_id == e.verification.run_id
    &&& x.verification.test_id == e.verification.test_id
    &&& x.verification.target_url == e.verification.target_url
    &&& x.verification.dashboard_url == e.verification.dashboard_url
    &&& x.verification.files_changed@ == (if e.verification.files_changed@.len() == 0 {
        e.evidence.files_changed@
    } else {
        e.verification.files_changed@
    })
    &&& x.outcome == e.outcome
    &&& x.evidence.commit_sha == e.evidence.commit_sha
    &&& x.evidence.branch == e.evidence.branch
    &&& x.evidence.agent == e.evidence.agent
    &&& x.evidence.files_changed@ == e.evidence.files_changed@
    &&& x.scope == e.scope
    &&& x.confidence == e.confidence
}

/// `x` holds what `e` holds, texts and lists compared by their contents.
pub open spec fn same_experience(x: EngineeringExperience, e: EngineeringExperience) -> bool {
    &&& x.id@ == e.id@
    &&& x.created_at == e.created_at
    &&& x.verified_at == e.verified_at
    &&& x.task.summary@ == e.task.summary@
    &&& x.task.task_type == e.task.task_type
    &&& x.task.hypothesis == e.task.hypothesis
    &&& x.context == e.context
    &&& x.trajectory == e.trajectory
    &&& x.lesson@ == e.lesson@
    &&& x.verification.source == e.verification.source
    &&& x.verification.result == e.verification.result
    &&& x.verification.command == e.verification.command
    &&& x.verification.reference == e.verification.reference
    &&& x.verification.run_id == e.verification.run_id
    &&& x.verification.test_id == e.verification.test_id
    &&& x.verification.target_url == e.verification.target_url
    &&& x.verification.dashboard_url == e.verification.dashboard_url
    &&& x.verification.files_changed@ == e.verification.files_changed@
    &&& x.outcome == e.outcome
    &&& x.evidence.commit_sha == e.evidence.commit_sha
    &&& x.evidence.branch == e.evidence.branch
    &&& x.evidence.agent == e.evidence.agent
    &&& x.evidence.files_changed@ == e.evidence.files_changed@
    &&& x.scope == e.scope
    &&& x.confidence == e.confidence
}

impl EngineeringExperience {
    /// Migrates a stored record, of the current or the first-version shape,
    /// to an experience of the current shape.
    pub fn from_record(rec: StoredRecord) -> (e: EngineeringExperience)
        ensures
            migrated(rec, e),
    {
        let loaded_task = match rec.task {
            Some(t) => t,
            None => TaskRecord::default(),
        };
        let summary = if trim(loaded_task.summary.as_str()).as_str().is_empty() {
            match rec.problem {
                Some(p) => p,
                None => String::new(),
            }
        } else {
            loaded_task.summary
        };
        let task_type = match rec.task_type {
            Some(t) => t,
            None => loaded_task.task_type,
        };
        let mut task = TaskRecord {
            summary,
            task_type,
            hypothesis: either(loaded_task.hypothesis, rec.hypothesis),
        };
        let mut verification = match rec.verification {
            Some(v) => v,
            None => VerificationEvidence::default(),
        };
        let pass = match rec.verified {
            Some(LegacyVerificationStatus::Pass) => true,
            None => false,
        };
        if verification.source == VerificationSource::Unspecified {
            verification.source = if pass {
                VerificationSource::Custom
            } else {
                VerificationSource::Unspecified
            };
        }
        if verification.result == VerificationResult::Unknown {
            verification.result = if pass {
                VerificationResult::Passed
            } else {
                VerificationResult::Unknown
            };
        }
        let legacy = match rec.evidence {
            Some(l) => l,
            None => LegacyEvidence::default(),
        };
        let mut code_evidence = CodeEvidence {
            commit_sha: legacy.commit_sha,
            branch: legacy.branch,
            agent: legacy.agent,
            files_changed: clone_strings(&legacy.files_changed),
        };
        if code_evidence.files_changed.len() == 0 {
            code_evidence.files_changed = clone_strings(&rec.patches);
        }
        verification.run_id = either(verification.run_id, legacy.run_id);
        verification.test_id = either(verification.test_id, legacy.test_id);
        verification.target_url = either(verification.target_url, legacy.target_url);
        verification.dashboard_url = either(verification.dashboard_url, legacy.dashboard_url);
        if verification.files_changed.len() == 0 {
            verification.files_changed = clone_strings(&code_evidence.files_changed);
        }
        if task.hypothesis.is_none() {
            task.hypothesis = match &verification.reference {
                Some(r) => Some(r.clone()),
                None => None,
            };
        }
        let verified_at = match rec.verified_at {
            Some(t) => t,
            None => rec.created_at,
        };
        let context = match rec.context {
            Some(c) => c,
            None => ProjectContext::default(),
        };
        let trajectory = match rec.trajectory {
            Some(t) => t,
            None => match rec.trajectory_summary {
                Some(t) => t,
                None => TrajectorySummary::default(),
            },
        };
        EngineeringExperience {
            id: rec.id,
            created_at: rec.created_at,
            verified_at,
            task,
            context,
            trajectory,
            lesson: rec.lesson,
            verification,
            outcome: match rec.outcome {
                Some(o) => o,
                None => ExperienceOutcome::VerifiedSuccess,
            },
            evidence: code_evidence,
            scope: rec.scope,
            confidence: rec.confidence,
        }
    }
}

} // verus!
