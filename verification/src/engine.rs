//! The memory engine: where a memory lives on disk, what initializing it
//! creates, how learning turns a request into a stored experience, and the
//! order stored experiences are read in.

use vstd::prelude::*;
use crate::experience::{experience_id, learn_refusal, next_id, validate_learn_input, MemoryError};
use crate::model::{
    is_default_context, CodeEvidence, Config, EngineeringExperience, ExperienceOutcome,
    LearnInput, ProjectContext, TaskRecord, TrajectorySummary, VerificationEvidence,
    VerificationResult,
};
use crate::text::{clone_strings, compare_text, lemma_text_before_transitive, lowercase, lowercase_of, text_before, TextOrder};
use crate::time::Timestamp;

verus! {

/// `base` joined with the relative `name`, as `PathBuf::push` does on Unix: a
/// separator goes between them unless `base` is empty or already ends in one.
pub open spec fn path_join(base: Seq<char>, name: Seq<char>) -> Seq<char> {
    if base.len() == 0 || base.last() == '/' {
        base + name
    } else {
        base + seq!['/'] + name
    }
}

/// Joins a relative name onto a path.
pub fn join_path(base: &str, name: &str) -> (r: String)
    ensures
        r@ == path_join(base@, name@),
{
    let n = base.unicode_len();
    let mut out = String::from_str(base);
    if n > 0 && base.get_char(n - 1) != '/' {
        out.append("/");
        proof {
            reveal_strlit("/");
        }
    }
    out.append(name);
    out
}

/// The engine over the memory of the project at `root`.
#[derive(Debug, Clone)]
pub struct LoopLensEngine {
    root: String,
}

/// The directory that holds a project's memory.
pub open spec fn memory_dir_of(root: Seq<char>) -> Seq<char> {
    path_join(root, ".looplens"@)
}

/// The parts of a memory's layout, in the order initializing creates them.
#[derive(Debug, Clone, Copy, PartialEq, Eq, Structural)]
pub enum LayoutEntry {
    MemoryDir,
    ExperiencesDir,
    TrajectoriesDir,
    ProjectFile,
    ConfigFile,
    LoopFile,
}

/// Which parts of a memory's layout exist already.
#[derive(Debug, Clone, Copy, PartialEq, Eq, Structural)]
pub struct LayoutPresence {
    pub memory_dir: bool,
    pub experiences_dir: bool,
    pub trajectories_dir: bool,
    pub project_file: bool,
    pub config_file: bool,
    pub loop_file: bool,
}

/// The name of a layout entry inside the memory directory.
pub open spec fn entry_name(entry: LayoutEntry) -> Seq<char> {
    match entry {
        LayoutEntry::MemoryDir => Seq::empty(),
        LayoutEntry::ExperiencesDir => "experiences"@,
        LayoutEntry::TrajectoriesDir => "trajectories"@,
        LayoutEntry::ProjectFile => "project.toml"@,
        LayoutEntry::ConfigFile => "config.toml"@,
        LayoutEntry::LoopFile => "LOOP.md"@,
    }
}

/// Whether the entry exists already.
pub open spec fn present(p: LayoutPresence, entry: LayoutEntry) -> bool {
    match entry {
        LayoutEntry::MemoryDir => p.memory_dir,
        LayoutEntry::ExperiencesDir => p.experiences_dir,
        LayoutEntry::TrajectoriesDir => p.trajectories_dir,
        LayoutEntry::ProjectFile => p.project_file,
        LayoutEntry::ConfigFile => p.config_file,
        LayoutEntry::LoopFile => p.loop_file,
    }
}

/// The entries initializing creates: the missing ones, in layout order.
pub open spec fn missing_entries(p: LayoutPresence) -> Seq<LayoutEntry> {
    (if p.memory_dir { Seq::empty() } else { seq![LayoutEntry::MemoryDir] })
        + (if p.experiences_dir { Seq::empty() } else { seq![LayoutEntry::ExperiencesDir] })
        + (if p.trajectories_dir { Seq::empty() } else { seq![LayoutEntry::TrajectoriesDir] })
        + (if p.project_file { Seq::empty() } else { seq![LayoutEntry::ProjectFile] })
        + (if p.config_file { Seq::empty() } else { seq![LayoutEntry::ConfigFile] })
        + (if p.loop_file { Seq::empty() } else { seq![LayoutEntry::LoopFile] })
}

/// What initializing produced: the memory directory and what it created there.
#[derive(Debug, Clone)]
pub struct InitResult {
    pub root: String,
    pub created: Vec<String>,
}

/// What learning records, given the request, the number of experiences
/// already stored, the project's context and the time of learning: the next
/// id, the request's task, trajectory, lesson, evidence, scope and
/// confidence, a verification that counts as passed unless it says
/// otherwise, changed files that fall back on the request's files, and a
/// verified-success outcome.
pub open spec fn learned(
    input: LearnInput,
    existing: nat,
    context: ProjectContext,
    now: Timestamp,
    e: EngineeringExperience,
) -> bool {
    &&& e.id@ == experience_id(existing + 1)
    &&& e.created_at == now
    &&& e.verified_at == now
    &&& e.task.summary == input.task
    &&& e.task.task_type == input.task_type
    &&& e.task.hypothesis == input.hypothesis
    &&& e.context == context
    &&& e.trajectory.failed_attempts == input.failed_attempts
    &&& e.trajectory.successful_decision == input.successful_decision
    &&& e.lesson == input.lesson
    &&& e.verification.source == input.verification.source
    &&& e.verification.result == (if input.verification.result == VerificationResult::Unknown {
        VerificationResult::Passed
    } else {
        input.verification.result
    })
    &&& e.verification.command == input.verification.command
    &&& e.verification.reference == input.verification.reference
    &&& e.verification.run_id == input.verification.run_id
    &&& e.verification.test_id == input.verification.test_id
    &&& e.verification.target_url == input.verification.target_url
    &&& e.verification.dashboard_url == input.verification.dashboard_url
    &&& e.verification.files_changed@ == (if input.verification.files_changed@.len() == 0 {
        input.files@
    } else {
        input.verification.files_changed@
    })
    &&& e.outcome == ExperienceOutcome::VerifiedSuccess
    &&& e.evidence.commit_sha == input.evidence.commit_sha
    &&& e.evidence.branch == input.evidence.branch
    &&& e.evidence.agent == input.evidence.agent
    &&& e.evidence.files_changed@ == (if input.evidence.files_changed@.len() == 0 {
        input.files@
    } else {
        input.evidence.files_changed@
    })
    &&& e.scope == input.scope
    &&& e.confidence == input.confidence
}

impl LoopLensEngine {
    /// An engine over the memory of the project at `root`.
    pub fn new(root: String) -> (r: LoopLensEngine)
        ensures
            r.root_spec() == root@,
    {
        LoopLensEngine { root }
    }

    /// The project root.
    pub closed spec fn root_spec(&self) -> Seq<char> {
        self.root@
    }

    /// The directory that holds the memory: `.looplens` under the root.
    pub fn memory_dir(&self) -> (r: String)
        ensures
            r@ == memory_dir_of(self.root_spec()),
    {
        join_path(self.root.as_str(), ".looplens")
    }

    /// The directory that holds the experience records.
    pub fn experiences_dir(&self) -> (r: String)
        ensures
            r@ == path_join(memory_dir_of(self.root_spec()), "experiences"@),
    {
        join_path(self.memory_dir().as_str(), "experiences")
    }

    /// Where a layout entry lives.
    pub fn entry_path(&self, entry: LayoutEntry) -> (r: String)
        ensures
            r@ == (if entry == LayoutEntry::MemoryDir {
                memory_dir_of(self.root_spec())
            } else {
                path_join(memory_dir_of(self.root_spec()), entry_name(entry))
            }),
    {
        let base = self.memory_dir();
        match entry {
            LayoutEntry::MemoryDir => base,
            LayoutEntry::ExperiencesDir => join_path(base.as_str(), "experiences"),
            LayoutEntry::TrajectoriesDir => join_path(base.as_str(), "trajectories"),
            LayoutEntry::ProjectFile => join_path(base.as_str(), "project.toml"),
            LayoutEntry::ConfigFile => join_path(base.as_str(), "config.toml"),
            LayoutEntry::LoopFile => join_path(base.as_str(), "LOOP.md"),
        }
    }

    /// A memory counts as initialized once it has a project file or a legacy
    /// configuration file; otherwise every operation that needs it is refused.
    pub fn ensure_initialized(&self, project_file_exists: bool, config_file_exists: bool) -> (r: Result<(), MemoryError>)
        ensures
            r is Err <==> !project_file_exists && !config_file_exists,
            r matches Err(e) ==> e == MemoryError::NotInitialized,
    {
        if !project_file_exists && !config_file_exists {
            Err(MemoryError::NotInitialized)
        } else {
            Ok(())
        }
    }

    /// Turns a learning request into the experience to store: refused as
    /// `validate_learn_input` says, else the next experience after `existing`
    /// stored ones, learned at `now` in `context`.
    pub fn learn(
        &self,
        input: LearnInput,
        existing: usize,
        context: ProjectContext,
        now: Timestamp,
    ) -> (r: Result<EngineeringExperience, MemoryError>)
        requires
            existing < usize::MAX,
        ensures
            match learn_refusal(input) {
                Some(e) => r == Err::<EngineeringExperience, MemoryError>(e),
                None => r matches Ok(x) && learned(input, existing as nat, context, now, x),
            },
    {
        match validate_learn_input(&input) {
            Err(e) => {
                return Err(e);
            },
            Ok(()) => {},
        }
        let id = next_id(existing + 1);
        let mut verification = input.verification;
        if verification.result == VerificationResult::Unknown {
            verification.result = VerificationResult::Passed;
        }
        if verification.files_changed.len() == 0 {
            verification.files_changed = clone_strings(&input.files);
        }
        let mut evidence = input.evidence;
        if evidence.files_changed.len() == 0 {
            evidence.files_changed = clone_strings(&input.files);
        }
        Ok(EngineeringExperience {
            id,
            created_at: now,
            verified_at: now,
            task: TaskRecord {
                summary: input.task,
                task_type: input.task_type,
                hypothesis: input.hypothesis,
            },
            context,
            trajectory: TrajectorySummary {
                failed_attempts: input.failed_attempts,
                successful_decision: input.successful_decision,
            },
            lesson: input.lesson,
            verification,
            outcome: ExperienceOutcome::VerifiedSuccess,
            evidence,
            scope: input.scope,
            confidence: input.confidence,
        })
    }

    /// Learns at the current time: as `learn`, stamped with what the clock
    /// reads, or refused if the clock reads an instant that cannot be recorded.
    pub fn learn_now(&self, input: LearnInput, existing: usize, context: ProjectContext) -> (r: Result<
        EngineeringExperience,
        MemoryError,
    >)
        requires
            existing < usize::MAX,
        ensures
            match learn_refusal(input) {
                Some(e) => r == Err::<EngineeringExperience, MemoryError>(e),
                None => match r {
                    Ok(x) => learned(input, existing as nat, context, x.created_at, x),
                    Err(e) => e == MemoryError::ClockUnavailable,
                },
            },
    {
        match validate_learn_input(&input) {
            Err(e) => {
                return Err(e);
            },
            Ok(()) => {},
        }
        match Timestamp::now() {
            Some(now) => self.learn(input, existing, context, now),
            None => Err(MemoryError::ClockUnavailable),
        }
    }

    /// What initializing has to create: the missing parts of the layout, in order.
    pub fn init_plan(&self, presence: &LayoutPresence) -> (r: Vec<LayoutEntry>)
        ensures
            r@ == missing_entries(*presence),
    {
        let mut plan: Vec<LayoutEntry> = Vec::new();
        if !presence.memory_dir {
            plan.push(LayoutEntry::MemoryDir);
        }
        if !presence.experiences_dir {
            plan.push(LayoutEntry::ExperiencesDir);
        }
        if !presence.trajectories_dir {
            plan.push(LayoutEntry::TrajectoriesDir);
        }
        if !presence.project_file {
            plan.push(LayoutEntry::ProjectFile);
        }
        if !presence.config_file {
            plan.push(LayoutEntry::ConfigFile);
        }
        if !presence.loop_file {
            plan.push(LayoutEntry::LoopFile);
        }
        assert(plan@ =~= missing_entries(*presence));
        plan
    }

    /// Reports an initialization: the memory directory and the paths created, in order.
    pub fn init_result(&self, created: &Vec<LayoutEntry>) -> (r: InitResult)
        ensures
            r.root@ == memory_dir_of(self.root_spec()),
            r.created@.len() == created@.len(),
            forall|i: int| 0 <= i < created@.len() ==> #[trigger] r.created@[i]@ == (if created@[i] == LayoutEntry::MemoryDir {
                memory_dir_of(self.root_spec())
            } else {
                path_join(memory_dir_of(self.root_spec()), entry_name(created@[i]))
            }),
    {
        let mut paths: Vec<String> = Vec::new();
        let mut i: usize = 0;
        while i < created.len()
            invariant
                i <= created@.len(),
                paths@.len() == i,
                forall|a: int| 0 <= a < i ==> #[trigger] paths@[a]@ == (if created@[a] == LayoutEntry::MemoryDir {
                    memory_dir_of(self.root_spec())
                } else {
                    path_join(memory_dir_of(self.root_spec()), entry_name(created@[a]))
                }),
            decreases created.len() - i,
        {
            paths.push(self.entry_path(created[i]));
            i = i + 1;
        }
        InitResult { root: self.memory_dir(), created: paths }
    }
}

impl ProjectContext {
    /// The context a legacy configuration gives: its project name, with the
    /// default stack.
    pub fn from_config(config: Config) -> (r: ProjectContext)
        ensures
            r.name == config.project,
            r.languages@.len() == 1 && r.languages@[0]@ == "rust"@,
            r.frameworks@.len() == 0,
            r.runtime matches Some(x) && x@ == "native"@,
            r.package_manager matches Some(x) && x@ == "cargo"@,
            r.test_frameworks@.len() == 1 && r.test_frameworks@[0]@ == "cargo test"@,
    {
        let base = ProjectContext::default();
        ProjectContext { name: config.project, ..base }
    }
}

/// Where a project's context comes from.
#[derive(Debug, Clone, Copy, PartialEq, Eq, Structural)]
pub enum ContextSource {
    ProjectFile,
    LegacyConfig,
    Default,
}

/// Decides where a project's context comes from: its project file if there
/// is one, else its legacy configuration, else the default.
pub fn context_source(project_file_exists: bool, config_file_exists: bool) -> (r: ContextSource)
    ensures
        r == (if project_file_exists {
            ContextSource::ProjectFile
        } else if config_file_exists {
            ContextSource::LegacyConfig
        } else {
            ContextSource::Default
        }),
{
    if project_file_exists {
        ContextSource::ProjectFile
    } else if config_file_exists {
        ContextSource::LegacyConfig
    } else {
        ContextSource::Default
    }
}

/// The file name of an experience's record: its id lowercased, with `.yaml`.
pub fn experience_file_name(id: &str) -> (r: String)
    ensures
        r@ == lowercase_of(id@) + ".yaml"@,
{
    let mut name = lowercase(id);
    name.append(".yaml");
    name
}

/// The file name of an experience's trajectory: its id lowercased, with `.md`.
pub fn trajectory_file_name(id: &str) -> (r: String)
    ensures
        r@ == lowercase_of(id@) + ".md"@,
{
    let mut name = lowercase(id);
    name.append(".md");
    name
}

/// Whether a file name has the extension `yaml` by `Path::extension`'s rule:
/// the part after the last dot, where that dot does not begin the name.
pub open spec fn has_yaml_extension(name: Seq<char>) -> bool {
    name.len() > 5 && name.subrange(name.len() - 5, name.len() as int) == ".yaml"@
}

/// Tests whether a directory entry's file name marks an experience record.
pub fn is_yaml_file_name(name: &str) -> (r: bool)
    ensures
        r == has_yaml_extension(name@),
{
    let n = name.unicode_len();
    if n <= 5 {
        return false;
    }
    let tail = name.substring_char(n - 5, n);
    crate::text::text_eq(tail, ".yaml")
}


/// Experiences with this id.
pub open spec fn with_id(k: Seq<char>) -> spec_fn(EngineeringExperience) -> bool {
    |e: EngineeringExperience| e.id@ == k
}

/// The experiences stand in id order (no id comes before an earlier one's).
pub open spec fn ordered_by_id(es: Seq<EngineeringExperience>) -> bool {
    forall|i: int, j: int| 0 <= i < j < es.len() ==> !text_before(#[trigger] es[j].id@, #[trigger] es[i].id@)
}

/// `r` is `es` sorted by id: in id order, nothing added or lost, and
/// experiences with the same id in the order they came in.
pub open spec fn is_id_sort_of(r: Seq<EngineeringExperience>, es: Seq<EngineeringExperience>) -> bool {
    &&& ordered_by_id(r)
    &&& r.to_multiset() == es.to_multiset()
    &&& forall|k: Seq<char>| #[trigger] r.filter(with_id(k)) == es.filter(with_id(k))
}

/// Sorts experiences by id, keeping experiences with the same id in the order
/// they came in, as a stable sort does.
pub fn sort_by_id(experiences: Vec<EngineeringExperience>) -> (r: Vec<EngineeringExperience>)
    ensures
        is_id_sort_of(r@, experiences@),
{
    let ghost es = experiences@;
    let mut out: Vec<EngineeringExperience> = Vec::new();
    broadcast use vstd::std_specs::vec::axiom_spec_into_iter;
    proof {
        assert(es.take(0) =~= Seq::<EngineeringExperience>::empty());
        assert(out@.to_multiset() =~= es.take(0).to_multiset()) by {
            broadcast use vstd::seq_lib::group_to_multiset_ensures;
        }
        assert forall|k: Seq<char>| #[trigger] out@.filter(with_id(k)) == es.take(0).filter(with_id(k)) by {
            reveal_with_fuel(Seq::filter, 1);
        }
    }
    for m in it: experiences.into_iter()
        invariant
            it.seq() == es,
            is_id_sort_of(out@, es.take(it.index() as int)),
    {
        let ghost i = it.index() as int;
        let ghost before = out@;
        let mut p: usize = 0;
        while p < out.len() && compare_text(out[p].id.as_str(), m.id.as_str()) != TextOrder::After
            invariant
                p <= out@.len(),
                out@ == before,
                forall|a: int| 0 <= a < p ==> !text_before(m.id@, #[trigger] out@[a].id@),
            decreases out.len() - p,
        {
            p = p + 1;
        }
        proof {
            assert forall|a: int| p <= a < before.len() implies #[trigger] before[a].id@ != m.id@ && !text_before(before[a].id@, m.id@) by {
                assert(text_before(m.id@, before[p as int].id@));
                if a > p {
                    assert(!text_before(before[a].id@, before[p as int].id@));
                    if text_before(before[a].id@, m.id@) {
                        lemma_text_before_transitive(before[a].id@, m.id@, before[p as int].id@);
                    }
                    if before[a].id@ == m.id@ {
                    }
                } else {
                    crate::text::lemma_text_before_irreflexive(m.id@);
                    if text_before(before[a].id@, m.id@) {
                        lemma_text_before_transitive(m.id@, before[a].id@, m.id@);
                    }
                }
            }
            crate::seqs::lemma_insert_multiset(before, p as int, m);
            assert forall|k: Seq<char>| #[trigger] before.insert(p as int, m).filter(with_id(k)) == (if m.id@ == k {
                before.filter(with_id(k)).push(m)
            } else {
                before.filter(with_id(k))
            }) by {
                crate::seqs::lemma_insert_filter(before, p as int, m, with_id(k));
            }
            assert(es.take(i + 1) =~= es.take(i).push(m));
            assert forall|k: Seq<char>| #[trigger] es.take(i + 1).filter(with_id(k)) == (if m.id@ == k {
                es.take(i).filter(with_id(k)).push(m)
            } else {
                es.take(i).filter(with_id(k))
            }) by {
                es.take(i).lemma_filter_push(m, with_id(k));
            }
            assert(es.take(i).push(m).to_multiset() == es.take(i).to_multiset().insert(m)) by {
                broadcast use vstd::seq_lib::group_to_multiset_ensures;
            }
        }
        out.insert(p, m);
        proof {
            assert(out@ == before.insert(p as int, m));
            assert forall|a: int, b: int| 0 <= a < b < out@.len() implies !text_before(#[trigger] out@[b].id@, #[trigger] out@[a].id@) by {
                if b < p {
                } else if b == p {
                } else if a < p {
                    assert(out@[b] == before[b - 1]);
                } else if a == p {
                    assert(out@[b] == before[b - 1]);
                } else {
                    assert(out@[a] == before[a - 1] && out@[b] == before[b - 1]);
                }
            }
        }
    }
    proof {
        assert(es.take(es.len() as int) =~= es);
    }
    out
}

} // verus!
