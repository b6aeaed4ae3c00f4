//! Properties of the memory that span its operations.

use vstd::prelude::*;
use crate::render::{
    detail_line, item_lines, loop_section, optional_line, section_details, section_head, section_tail,
    section_verification, trajectory_lines,
};
use crate::model::{outcome_label, result_label, source_label, task_type_label};
use crate::engine::{learned, missing_entries, present, LayoutEntry, LayoutPresence};
use crate::experience::{context_text_of, learn_refusal, migrated, records_current_shape, reads_back_as, same_experience, StoredRecord};
use crate::model::{
    source_name, source_named, task_type_name, task_type_named, EngineeringExperience,
    ExperienceOutcome, LearnInput, ProjectContext, TaskType, VerificationResult,
    VerificationSource,
};
use crate::recall::{
    is_ranking_of, lemma_docs_containing_bound, score_key, total_before, kept_count, sharing, shares_nothing, strategies_of,
    term_weight, RecallMatch, RecallQuery,
};
use crate::text::{joined, opt_text, alphanumeric, ascii_lower, ascii_lower_char, is_ascii_text, lemma_ascii_key_normal, lemma_plain_word, trimmed, views};
use crate::tokens::{
    lemma_terms_around_separator, lemma_terms_of_joined, token_set,
    ascii_token_set, lemma_ascii_terms_ignore_case, lemma_sorted_listing_unique, strictly_sorted,
    text_set,
};
use crate::time::Timestamp;

verus! {

/// Whatever learning stores is a verified success whose verification passed:
/// a failed verification is refused, and an unknown one counts as passed.
pub proof fn lemma_learned_is_verified_success(
    input: LearnInput,
    existing: nat,
    context: ProjectContext,
    now: Timestamp,
    e: EngineeringExperience,
)
    requires
        learn_refusal(input) is None,
        learned(input, existing, context, now, e),
    ensures
        e.outcome == ExperienceOutcome::VerifiedSuccess,
        e.verification.result == VerificationResult::Passed,
{
}

/// A first-version record marked `verified: PASS` and carrying no
/// verification of its own migrates to a passed verification from a custom
/// verifier; a record without a verification time counts as verified when
/// created; a record without an outcome counts as a verified success.
pub proof fn lemma_legacy_pass_migrates(rec: StoredRecord, e: EngineeringExperience)
    requires
        migrated(rec, e),
    ensures
        rec.verification is None && rec.verified is Some ==> e.verification.source
            == VerificationSource::Custom && e.verification.result == VerificationResult::Passed,
        rec.verified_at is None ==> e.verified_at == e.created_at,
        rec.outcome is None ==> e.outcome == ExperienceOutcome::VerifiedSuccess,
{
}

/// An experience written in the current shape reads back as itself, except
/// that reading fills in what it left open (see `reads_back_as`); where it
/// left nothing open, it reads back unchanged.
pub proof fn lemma_current_records_read_back(rec: StoredRecord, e: EngineeringExperience, x: EngineeringExperience)
    requires
        records_current_shape(rec, e),
        migrated(rec, x),
    ensures
        reads_back_as(x, e),
        (e.task.summary@.len() == 0 || trimmed(e.task.summary@).len() > 0)
            && (e.task.hypothesis is Some || e.verification.reference is None)
            && (e.verification.files_changed@.len() > 0 || e.evidence.files_changed@.len() == 0)
            ==> same_experience(x, e),
{
    assert(x.task.summary@ == (if trimmed(e.task.summary@).len() == 0 { Seq::empty() } else { e.task.summary@ }));
    assert(x.verification.files_changed@ == (if e.verification.files_changed@.len() == 0 {
        e.evidence.files_changed@
    } else {
        e.verification.files_changed@
    }));
    assert(x.evidence.files_changed@ == e.evidence.files_changed@);
    if e.task.summary@.len() == 0 {
        assert(e.task.summary@ =~= Seq::<char>::empty());
    }
    if e.verification.files_changed@.len() == 0 && e.evidence.files_changed@.len() == 0 {
        assert(e.evidence.files_changed@ =~= e.verification.files_changed@);
    }
}

/// The decisions a recall recommends are exactly those of its verified
/// successes: every recommended strategy is the decision of a matched verified
/// success, and every matched verified success has its decision recommended.
pub proof fn lemma_strategies_are_verified_decisions(ms: Seq<RecallMatch>)
    ensures
        forall|s: String| #[trigger] strategies_of(ms).contains(s) ==> exists|i: int|
            0 <= i < ms.len() && ms[i].experience.outcome == ExperienceOutcome::VerifiedSuccess
                && #[trigger] ms[i].experience.trajectory.successful_decision == s,
        forall|i: int| 0 <= i < ms.len() && #[trigger] ms[i].experience.outcome == ExperienceOutcome::VerifiedSuccess
            ==> strategies_of(ms).contains(ms[i].experience.trajectory.successful_decision),
    decreases ms.len(),
{
    if ms.len() > 0 {
        let init = ms.drop_last();
        lemma_strategies_are_verified_decisions(init);
        let tail = if ms.last().experience.outcome == ExperienceOutcome::VerifiedSuccess {
            seq![ms.last().experience.trajectory.successful_decision]
        } else {
            Seq::<String>::empty()
        };
        assert(strategies_of(ms) == strategies_of(init) + tail);
        assert forall|s: String| #[trigger] strategies_of(ms).contains(s) implies exists|i: int|
            0 <= i < ms.len() && ms[i].experience.outcome == ExperienceOutcome::VerifiedSuccess
                && #[trigger] ms[i].experience.trajectory.successful_decision == s by {
            let k = choose|k: int| 0 <= k < strategies_of(ms).len() && strategies_of(ms)[k] == s;
            if k < strategies_of(init).len() {
                assert(strategies_of(init).contains(s));
                let i = choose|i: int| 0 <= i < init.len() && init[i].experience.outcome
                    == ExperienceOutcome::VerifiedSuccess && #[trigger] init[i].experience.trajectory.successful_decision == s;
                assert(ms[i] == init[i]);
            } else {
                assert(ms[ms.len() - 1] == ms.last());
            }
        }
        assert forall|i: int| 0 <= i < ms.len() && #[trigger] ms[i].experience.outcome == ExperienceOutcome::VerifiedSuccess
            implies strategies_of(ms).contains(ms[i].experience.trajectory.successful_decision) by {
            let d = ms[i].experience.trajectory.successful_decision;
            if i < init.len() {
                assert(init[i] == ms[i]);
                assert(init[i].experience.outcome == ExperienceOutcome::VerifiedSuccess);
                assert(strategies_of(init).contains(d));
                let k = choose|k: int| 0 <= k < strategies_of(init).len() && strategies_of(init)[k] == d;
                assert(strategies_of(ms)[k] == d);
            } else {
                assert(strategies_of(ms)[strategies_of(init).len() as int] == d);
            }
        }
    }
}

/// A recall keeps at most `top_k` matches (at least one if there is any), and
/// never more than there are.
pub proof fn lemma_recall_keeps_at_most_top_k(top_k: usize, available: nat)
    ensures
        kept_count(top_k, available) <= available,
        kept_count(top_k, available) <= (if top_k == 0 { 1 } else { top_k as nat }),
        available > 0 ==> kept_count(top_k, available) > 0,
{
}

/// A recall keeps the best of the ranked matches: every match it keeps ranks
/// at least as high as every match it leaves out.
pub proof fn lemma_recall_keeps_the_best(r: Seq<RecallMatch>, ms: Seq<RecallMatch>, top_k: usize)
    requires
        is_ranking_of(r, ms),
    ensures
        forall|i: int, j: int|
            0 <= i < kept_count(top_k, r.len()) <= j < r.len() ==> #[trigger] r[i].rank_key >= #[trigger] r[j].rank_key,
{
}

/// Every experience that shares a term with the request is among the
/// candidates, and every candidate shares a term with it.
pub proof fn lemma_candidates_are_the_relevant_experiences(q: RecallQuery, es: Seq<EngineeringExperience>)
    ensures
        forall|i: int| 0 <= i < es.len() && !shares_nothing(q, #[trigger] es[i]) ==> sharing(q, es).contains(es[i]),
        forall|k: int| 0 <= k < sharing(q, es).len() ==> !shares_nothing(q, #[trigger] sharing(q, es)[k]),
{
    let f = |e: EngineeringExperience| !shares_nothing(q, e);
    assert forall|i: int| 0 <= i < es.len() && !shares_nothing(q, #[trigger] es[i]) implies sharing(q, es).contains(es[i]) by {
        broadcast use vstd::seq_lib::group_filter_ensures;
        assert(f(es[i]));
    }
    assert forall|k: int| 0 <= k < sharing(q, es).len() implies !shares_nothing(q, #[trigger] sharing(q, es)[k]) by {
        broadcast use vstd::seq_lib::group_filter_ensures;
        assert(sharing(q, es)[k] == es.filter(f)[k]);
        assert(f(sharing(q, es)[k]));
    }
}

/// Score keys order scores exactly as `f32::total_cmp` does: one key is
/// smaller than another just when its score comes first, and two scores share
/// a key only when they have the same bits.
pub proof fn lemma_score_key_orders_scores(a: u32, b: u32)
    ensures
        score_key(a) < score_key(b) <==> total_before(a, b),
        score_key(a) == score_key(b) <==> a == b,
{
}

/// The overlap of two term lists does not depend on which comes first: what
/// `overlap_terms` gives for `a` and `b` and what it gives for `b` and `a` are
/// the same list.
pub proof fn lemma_overlap_symmetric(a: Seq<String>, b: Seq<String>, ab: Seq<String>, ba: Seq<String>)
    requires
        strictly_sorted(ab),
        text_set(ab) == text_set(a).intersect(text_set(b)),
        strictly_sorted(ba),
        text_set(ba) == text_set(b).intersect(text_set(a)),
    ensures
        views(ab) == views(ba),
{
    assert(text_set(ab) =~= text_set(ba));
    lemma_sorted_listing_unique(ab, ba);
}

/// The overlap of a sorted term list with itself is that list.
pub proof fn lemma_overlap_with_itself(a: Seq<String>, aa: Seq<String>)
    requires
        strictly_sorted(a),
        strictly_sorted(aa),
        text_set(aa) == text_set(a).intersect(text_set(a)),
    ensures
        views(aa) == views(a),
{
    assert(text_set(aa) =~= text_set(a));
    lemma_sorted_listing_unique(aa, a);
}

/// The first match of a ranking has the largest key of all the matches ranked.
pub proof fn lemma_best_match_first(r: Seq<RecallMatch>, ms: Seq<RecallMatch>)
    requires
        is_ranking_of(r, ms),
        r.len() > 0,
    ensures
        forall|i: int| 0 <= i < ms.len() ==> #[trigger] ms[i].rank_key <= r[0].rank_key,
{
    broadcast use vstd::seq_lib::group_to_multiset_ensures;
    assert forall|i: int| 0 <= i < ms.len() implies #[trigger] ms[i].rank_key <= r[0].rank_key by {
        assert(ms.contains(ms[i]));
        assert(ms.to_multiset().count(ms[i]) > 0);
        assert(r.to_multiset().count(ms[i]) > 0);
        assert(r.contains(ms[i]));
        let j = choose|j: int| 0 <= j < r.len() && r[j] == ms[i];
        if j > 0 {
            assert(r[0].rank_key >= r[j].rank_key);
        }
    }
}

/// A term's weight is at least one and at most the number of experiences
/// (or one, when there are none).
pub proof fn lemma_term_weight_bounds(es: Seq<EngineeringExperience>, t: Seq<char>)
    ensures
        1 <= term_weight(es, t),
        term_weight(es, t) <= (if es.len() == 0 { 1 } else { es.len() }),
{
    lemma_docs_containing_bound(es, t);
}

/// The entries of the layout, in the order initializing creates them.
pub open spec fn layout_order() -> Seq<LayoutEntry> {
    seq![
        LayoutEntry::MemoryDir,
        LayoutEntry::ExperiencesDir,
        LayoutEntry::TrajectoriesDir,
        LayoutEntry::ProjectFile,
        LayoutEntry::ConfigFile,
        LayoutEntry::LoopFile,
    ]
}

/// The layout after the entries `created` were made.
pub open spec fn presence_after(p: LayoutPresence, created: Seq<LayoutEntry>) -> LayoutPresence {
    LayoutPresence {
        memory_dir: p.memory_dir || created.contains(LayoutEntry::MemoryDir),
        experiences_dir: p.experiences_dir || created.contains(LayoutEntry::ExperiencesDir),
        trajectories_dir: p.trajectories_dir || created.contains(LayoutEntry::TrajectoriesDir),
        project_file: p.project_file || created.contains(LayoutEntry::ProjectFile),
        config_file: p.config_file || created.contains(LayoutEntry::ConfigFile),
        loop_file: p.loop_file || created.contains(LayoutEntry::LoopFile),
    }
}

proof fn lemma_plan_skips_present(p: LayoutPresence)
    ensures
        forall|e: LayoutEntry| present(p, e) ==> !(#[trigger] missing_entries(p).contains(e)),
{
    let m = missing_entries(p);
    assert forall|e: LayoutEntry| present(p, e) implies !(#[trigger] missing_entries(p).contains(e)) by {
        if m.contains(e) {
            let i = choose|i: int| 0 <= i < m.len() && m[i] == e;
            assert(!present(p, m[i]));
        }
    }
}

/// Initializing never plans to create a part that is there, and once its
/// plan has been carried out, initializing again plans nothing.
pub proof fn lemma_second_init_creates_nothing(p: LayoutPresence)
    ensures
        forall|e: LayoutEntry| present(p, e) ==> !(#[trigger] missing_entries(p).contains(e)),
        missing_entries(presence_after(p, missing_entries(p))).len() == 0,
{
    lemma_plan_skips_present(p);
    let m = missing_entries(p);
    let q = presence_after(p, m);
    let a: int = if p.memory_dir { 0int } else { 1int };
    let b: int = a + if p.experiences_dir { 0int } else { 1int };
    let c: int = b + if p.trajectories_dir { 0int } else { 1int };
    let d: int = c + if p.project_file { 0int } else { 1int };
    let g: int = d + if p.config_file { 0int } else { 1int };
    assert(!p.memory_dir ==> m[0] == LayoutEntry::MemoryDir);
    assert(!p.experiences_dir ==> m[a] == LayoutEntry::ExperiencesDir);
    assert(!p.trajectories_dir ==> m[b] == LayoutEntry::TrajectoriesDir);
    assert(!p.project_file ==> m[c] == LayoutEntry::ProjectFile);
    assert(!p.config_file ==> m[d] == LayoutEntry::ConfigFile);
    assert(!p.loop_file ==> m[g] == LayoutEntry::LoopFile);
    assert(missing_entries(q) =~= Seq::<LayoutEntry>::empty());
}

/// Initializing creates exactly the parts of the layout that are missing, in
/// layout order; once every part is there it has nothing left to create.
pub proof fn lemma_init_creates_what_is_missing(p: LayoutPresence)
    ensures
        missing_entries(p) == layout_order().filter(|e: LayoutEntry| !present(p, e)),
        missing_entries(LayoutPresence {
            memory_dir: true,
            experiences_dir: true,
            trajectories_dir: true,
            project_file: true,
            config_file: true,
            loop_file: true,
        }).len() == 0,
{
    let all = LayoutPresence {
        memory_dir: true,
        experiences_dir: true,
        trajectories_dir: true,
        project_file: true,
        config_file: true,
        loop_file: true,
    };
    assert(missing_entries(all) =~= Seq::<LayoutEntry>::empty());
    let f = |e: LayoutEntry| !present(p, e);
    let o = layout_order();
    reveal_with_fuel(Seq::filter, 7);
    assert(o.take(1).drop_last() =~= o.take(0));
    assert(o.take(2).drop_last() =~= o.take(1));
    assert(o.take(3).drop_last() =~= o.take(2));
    assert(o.take(4).drop_last() =~= o.take(3));
    assert(o.take(5).drop_last() =~= o.take(4));
    assert(o.take(6).drop_last() =~= o.take(5));
    assert(o.take(6) =~= o);
    assert(o.take(0).filter(f) =~= Seq::<LayoutEntry>::empty());
    assert(missing_entries(p) =~= o.filter(f));
}

/// Every task type reads back from the name it is stored under.
pub proof fn lemma_task_type_names_parse(t: TaskType)
    ensures
        is_ascii_text(task_type_name(t)),
        task_type_named(ascii_lower(trimmed(task_type_name(t)))) == Some(t),
{
    reveal_strlit("bugfix");
    reveal_strlit("bug");
    reveal_strlit("fix");
    reveal_strlit("feature");
    reveal_strlit("feat");
    reveal_strlit("refactor");
    reveal_strlit("migration");
    reveal_strlit("migrate");
    reveal_strlit("performance");
    reveal_strlit("perf");
    reveal_strlit("build");
    reveal_strlit("deployment");
    reveal_strlit("deploy");
    reveal_strlit("testing");
    reveal_strlit("test");
    reveal_strlit("configuration");
    reveal_strlit("config");
    reveal_strlit("dependency");
    reveal_strlit("deps");
    reveal_strlit("other");
    let w = task_type_name(t);
    assert forall|i: int| 0 <= i < w.len() implies 'a' <= #[trigger] w[i] <= 'z' by {}
    lemma_plain_word(w);
}

/// The short names of task types read as the task types they stand for.
pub proof fn lemma_task_type_aliases_parse()
    ensures
        task_type_named(ascii_lower(trimmed("bug"@))) == Some(TaskType::Bugfix),
        task_type_named(ascii_lower(trimmed("fix"@))) == Some(TaskType::Bugfix),
        task_type_named(ascii_lower(trimmed("feat"@))) == Some(TaskType::Feature),
        task_type_named(ascii_lower(trimmed("migrate"@))) == Some(TaskType::Migration),
        task_type_named(ascii_lower(trimmed("perf"@))) == Some(TaskType::Performance),
        task_type_named(ascii_lower(trimmed("deploy"@))) == Some(TaskType::Deployment),
        task_type_named(ascii_lower(trimmed("test"@))) == Some(TaskType::Testing),
        task_type_named(ascii_lower(trimmed("config"@))) == Some(TaskType::Configuration),
        task_type_named(ascii_lower(trimmed("deps"@))) == Some(TaskType::Dependency),
{
    reveal_strlit("bugfix");
    reveal_strlit("bug");
    reveal_strlit("fix");
    reveal_strlit("feature");
    reveal_strlit("feat");
    reveal_strlit("refactor");
    reveal_strlit("migration");
    reveal_strlit("migrate");
    reveal_strlit("performance");
    reveal_strlit("perf");
    reveal_strlit("build");
    reveal_strlit("deployment");
    reveal_strlit("deploy");
    reveal_strlit("testing");
    reveal_strlit("test");
    reveal_strlit("configuration");
    reveal_strlit("config");
    reveal_strlit("dependency");
    reveal_strlit("deps");
    reveal_strlit("other");
    lemma_plain_word("bug"@);
    lemma_plain_word("fix"@);
    lemma_plain_word("feat"@);
    lemma_plain_word("migrate"@);
    lemma_plain_word("perf"@);
    lemma_plain_word("deploy"@);
    lemma_plain_word("test"@);
    lemma_plain_word("config"@);
    lemma_plain_word("deps"@);
}

/// Every verification source reads back from the name it is stored under.
pub proof fn lemma_source_names_parse(v: VerificationSource)
    ensures
        is_ascii_text(source_name(v)),
        source_named(ascii_lower(trimmed(source_name(v)))) == Some(v),
{
    reveal_strlit("test");
    reveal_strlit("tests");
    reveal_strlit("build");
    reveal_strlit("lint");
    reveal_strlit("ci");
    reveal_strlit("human");
    reveal_strlit("approval");
    reveal_strlit("custom");
    reveal_strlit("unspecified");
    reveal_strlit("unknown");
    let w = source_name(v);
    assert forall|i: int| 0 <= i < w.len() implies 'a' <= #[trigger] w[i] <= 'z' by {}
    lemma_plain_word(w);
}

/// `tests`, `approval` and `unknown` read as the sources they stand for.
pub proof fn lemma_source_aliases_parse()
    ensures
        source_named(ascii_lower(trimmed("tests"@))) == Some(VerificationSource::Test),
        source_named(ascii_lower(trimmed("approval"@))) == Some(VerificationSource::Human),
        source_named(ascii_lower(trimmed("unknown"@))) == Some(VerificationSource::Unspecified),
{
    reveal_strlit("test");
    reveal_strlit("tests");
    reveal_strlit("build");
    reveal_strlit("lint");
    reveal_strlit("ci");
    reveal_strlit("human");
    reveal_strlit("approval");
    reveal_strlit("custom");
    reveal_strlit("unspecified");
    reveal_strlit("unknown");
    lemma_plain_word("tests"@);
    lemma_plain_word("approval"@);
    lemma_plain_word("unknown"@);
}

/// Reading an ASCII name ignores case and surrounding white space: a name
/// and its trimmed, lowered form name the same task type and the same
/// verification source, or none alike.
pub proof fn lemma_names_ignore_case_and_spacing(s: Seq<char>)
    requires
        is_ascii_text(s),
    ensures
        is_ascii_text(ascii_lower(trimmed(s))),
        task_type_named(ascii_lower(trimmed(ascii_lower(trimmed(s))))) == task_type_named(ascii_lower(trimmed(s))),
        source_named(ascii_lower(trimmed(ascii_lower(trimmed(s))))) == source_named(ascii_lower(trimmed(s))),
{
    lemma_ascii_key_normal(s);
}

/// Case does not change the terms of an ASCII text: what `tokenize` gives for
/// a text and for its lowered form (itself ASCII) are the same list.
pub proof fn lemma_tokenize_ignores_ascii_case(s: Seq<char>, terms: Seq<String>, lowered_terms: Seq<String>)
    requires
        is_ascii_text(s),
        strictly_sorted(terms),
        text_set(terms) == ascii_token_set(s),
        strictly_sorted(lowered_terms),
        text_set(lowered_terms) == ascii_token_set(ascii_lower(s)),
    ensures
        is_ascii_text(ascii_lower(s)),
        views(terms) == views(lowered_terms),
{
    assert forall|i: int| 0 <= i < ascii_lower(s).len() implies (#[trigger] ascii_lower(s)[i] as u32) < 0x80 by {
        assert(ascii_lower(s)[i] == ascii_lower_char(s[i]));
    }
    lemma_ascii_terms_ignore_case(s);
    lemma_sorted_listing_unique(terms, lowered_terms);
}

/// Learning stores what the request says: its task, trajectory and lesson,
/// every verification detail (source, command, reference, run, test, target
/// and dashboard) and every code evidence detail unchanged; only an unknown
/// verification result becomes passed and empty change lists take the
/// request's files.
pub proof fn lemma_learn_keeps_the_request(
    input: LearnInput,
    existing: nat,
    context: ProjectContext,
    now: Timestamp,
    e: EngineeringExperience,
)
    requires
        learned(input, existing, context, now, e),
    ensures
        e.task.summary == input.task,
        e.task.task_type == input.task_type,
        e.task.hypothesis == input.hypothesis,
        e.trajectory.failed_attempts == input.failed_attempts,
        e.trajectory.successful_decision == input.successful_decision,
        e.lesson == input.lesson,
        e.verification.source == input.verification.source,
        e.verification.command == input.verification.command,
        e.verification.reference == input.verification.reference,
        e.verification.run_id == input.verification.run_id,
        e.verification.test_id == input.verification.test_id,
        e.verification.target_url == input.verification.target_url,
        e.verification.dashboard_url == input.verification.dashboard_url,
        input.verification.result != VerificationResult::Unknown ==> e.verification.result == input.verification.result,
        input.verification.files_changed@.len() > 0 ==> e.verification.files_changed@ == input.verification.files_changed@,
        input.verification.files_changed@.len() == 0 ==> e.verification.files_changed@ == input.files@,
        e.evidence.commit_sha == input.evidence.commit_sha,
        e.evidence.branch == input.evidence.branch,
        e.evidence.agent == input.evidence.agent,
        input.evidence.files_changed@.len() > 0 ==> e.evidence.files_changed@ == input.evidence.files_changed@,
        input.evidence.files_changed@.len() == 0 ==> e.evidence.files_changed@ == input.files@,
        e.scope == input.scope,
        e.confidence == input.confidence,
        e.context == context,
{
}

/// Migration keeps the trajectory a record carries: its own, else the
/// first-version `trajectory_summary`; only a record with neither gets an
/// empty one.
pub proof fn lemma_migration_keeps_trajectory(rec: StoredRecord, e: EngineeringExperience)
    requires
        migrated(rec, e),
    ensures
        rec.trajectory matches Some(t) ==> e.trajectory == t,
        rec.trajectory is None && rec.trajectory_summary is Some ==> e.trajectory == rec.trajectory_summary->0,
        rec.trajectory is None && rec.trajectory_summary is None ==> e.trajectory.failed_attempts@.len() == 0
            && e.trajectory.successful_decision@.len() == 0,
{
}

/// The stack an experience is matched on covers its whole project context:
/// every term of each of its languages and frameworks, of its runtime and of
/// its package manager is a term of its stack text (spaces being separators,
/// as `char::is_alphanumeric` has it).
pub proof fn lemma_stack_text_covers_context(e: EngineeringExperience)
    requires
        !alphanumeric(' '),
    ensures
        forall|i: int| 0 <= i < e.context.languages@.len()
            ==> token_set(#[trigger] e.context.languages@[i]@).subset_of(token_set(context_text_of(e))),
        forall|i: int| 0 <= i < e.context.frameworks@.len()
            ==> token_set(#[trigger] e.context.frameworks@[i]@).subset_of(token_set(context_text_of(e))),
        e.context.runtime matches Some(r) ==> token_set(r@).subset_of(token_set(context_text_of(e))),
        e.context.package_manager matches Some(m) ==> token_set(m@).subset_of(token_set(context_text_of(e))),
{
    reveal_strlit(" ");
    let l = joined(views(e.context.languages@), " "@);
    let f = joined(views(e.context.frameworks@), " "@);
    let r = opt_text(e.context.runtime);
    let m = opt_text(e.context.package_manager);
    let rest2 = r + seq![' '] + m;
    let rest1 = f + seq![' '] + rest2;
    assert(" "@ == seq![' ']);
    assert(context_text_of(e) =~= l + seq![' '] + rest1);
    lemma_terms_around_separator(l, ' ', rest1);
    lemma_terms_around_separator(f, ' ', rest2);
    lemma_terms_around_separator(r, ' ', m);
    assert forall|i: int| 0 <= i < e.context.languages@.len()
        implies token_set(#[trigger] e.context.languages@[i]@).subset_of(token_set(context_text_of(e))) by {
        assert(views(e.context.languages@)[i] == e.context.languages@[i]@);
        lemma_terms_of_joined(views(e.context.languages@), i);
    }
    assert forall|i: int| 0 <= i < e.context.frameworks@.len()
        implies token_set(#[trigger] e.context.frameworks@[i]@).subset_of(token_set(context_text_of(e))) by {
        assert(views(e.context.frameworks@)[i] == e.context.frameworks@[i]@);
        lemma_terms_of_joined(views(e.context.frameworks@), i);
    }
}

/// A line of a trajectory note that records a failed attempt.
pub open spec fn is_failed_line(l: Seq<char>) -> bool {
    l.len() >= 10 && l.take(10) == "- FAILED: "@
}

/// Picks the failed-attempt lines.
pub open spec fn failed_lines() -> spec_fn(Seq<char>) -> bool {
    |l: Seq<char>| is_failed_line(l)
}

/// A line that does not start with a dash.
pub open spec fn plain_line(l: Seq<char>) -> bool {
    l.len() == 0 || l[0] != '-'
}

proof fn lemma_plain_not_failed(l: Seq<char>)
    requires
        plain_line(l),
    ensures
        !is_failed_line(l),
{
    reveal_strlit("- FAILED: ");
    if is_failed_line(l) {
        assert(l.take(10)[0] == l[0]);
    }
}

proof fn lemma_plain_lines_filter_empty(s: Seq<Seq<char>>)
    requires
        forall|i: int| 0 <= i < s.len() ==> plain_line(#[trigger] s[i]),
    ensures
        s.filter(failed_lines()) == Seq::<Seq<char>>::empty(),
{
    assert forall|i: int| 0 <= i < s.len() implies !failed_lines()(#[trigger] s[i]) by {
        lemma_plain_not_failed(s[i]);
    }
    s.lemma_all_neg_filter_empty(failed_lines());
}

proof fn lemma_failed_lines_kept(s: Seq<Seq<char>>)
    requires
        forall|i: int| 0 <= i < s.len() ==> is_failed_line(#[trigger] s[i]),
    ensures
        s.filter(failed_lines()) == s,
    decreases s.len(),
{
    if s.len() == 0 {
        assert(s.filter(failed_lines()) =~= s) by {
            reveal_with_fuel(Seq::filter, 1);
        }
    } else {
        let d = s.drop_last();
        lemma_failed_lines_kept(d);
        d.lemma_filter_push(s.last(), failed_lines());
        assert(d.push(s.last()) =~= s);
    }
}

proof fn lemma_optional_plain(label: Seq<char>, o: Option<String>)
    requires
        label.len() > 0,
        label[0] != '-',
    ensures
        forall|i: int| 0 <= i < optional_line(label, o).len() ==> plain_line(#[trigger] optional_line(label, o)[i]),
{
    if o is Some {
        assert(optional_line(label, o)[0][0] == label[0]);
    }
}

proof fn lemma_plain_concat(a: Seq<Seq<char>>, b: Seq<Seq<char>>)
    requires
        forall|i: int| 0 <= i < a.len() ==> plain_line(#[trigger] a[i]),
        forall|i: int| 0 <= i < b.len() ==> plain_line(#[trigger] b[i]),
    ensures
        forall|i: int| 0 <= i < (a + b).len() ==> plain_line(#[trigger] (a + b)[i]),
{
    assert forall|i: int| 0 <= i < (a + b).len() implies plain_line(#[trigger] (a + b)[i]) by {
        if i < a.len() {
            assert((a + b)[i] == a[i]);
        } else {
            assert((a + b)[i] == b[i - a.len()]);
        }
    }
}

/// The opening lines of a trajectory note.
pub open spec fn note_head(e: EngineeringExperience) -> Seq<Seq<char>> {
    seq![
        "# "@ + e.id@ + " Trajectory"@,
        Seq::empty(),
        "Task: "@ + e.task.summary@,
        "Type: "@ + task_type_label(e.task.task_type),
        "Outcome: "@ + outcome_label(e.outcome) + " at "@ + e.verified_at.text(),
        Seq::empty(),
    ]
}

/// The lines of a trajectory note before its failed attempts.
pub open spec fn note_front(e: EngineeringExperience) -> Seq<Seq<char>> {
    note_head(e) + optional_line("Verification command: "@, e.verification.command)
        + optional_line("Verification reference: "@, e.verification.reference)
        + optional_line("Verification run: "@, e.verification.run_id)
        + optional_line("Target URL: "@, e.verification.target_url)
        + optional_line("Commit: "@, e.evidence.commit_sha)
        + optional_line("Branch: "@, e.evidence.branch)
        + optional_line("Agent: "@, e.evidence.agent)
        + (if e.evidence.files_changed@.len() == 0 {
            Seq::empty()
        } else {
            seq!["Files changed: "@ + joined(views(e.evidence.files_changed@), ", "@)]
        })
        + seq![Seq::<char>::empty()]
}

/// The line of a trajectory note after its failed attempts.
pub open spec fn note_success(e: EngineeringExperience) -> Seq<Seq<char>> {
    if e.trajectory.successful_decision@.len() == 0 {
        Seq::empty()
    } else {
        seq!["- SUCCESS: "@ + e.trajectory.successful_decision@]
    }
}

proof fn lemma_head_plain(e: EngineeringExperience)
    ensures
        forall|i: int| 0 <= i < note_head(e).len() ==> plain_line(#[trigger] note_head(e)[i]),
{
    reveal_strlit("# ");
    reveal_strlit("Task: ");
    reveal_strlit("Type: ");
    reveal_strlit("Outcome: ");
    let head = note_head(e);
    assert(head[0][0] == '#');
    assert(head[2][0] == 'T');
    assert(head[3][0] == 'T');
    assert(head[4][0] == 'O');
}

proof fn lemma_details_plain(e: EngineeringExperience)
    ensures
        forall|i: int| 0 <= i < optional_line("Verification command: "@, e.verification.command).len()
            ==> plain_line(#[trigger] optional_line("Verification command: "@, e.verification.command)[i]),
        forall|i: int| 0 <= i < optional_line("Verification reference: "@, e.verification.reference).len()
            ==> plain_line(#[trigger] optional_line("Verification reference: "@, e.verification.reference)[i]),
        forall|i: int| 0 <= i < optional_line("Verification run: "@, e.verification.run_id).len()
            ==> plain_line(#[trigger] optional_line("Verification run: "@, e.verification.run_id)[i]),
        forall|i: int| 0 <= i < optional_line("Target URL: "@, e.verification.target_url).len()
            ==> plain_line(#[trigger] optional_line("Target URL: "@, e.verification.target_url)[i]),
        forall|i: int| 0 <= i < optional_line("Commit: "@, e.evidence.commit_sha).len()
            ==> plain_line(#[trigger] optional_line("Commit: "@, e.evidence.commit_sha)[i]),
        forall|i: int| 0 <= i < optional_line("Branch: "@, e.evidence.branch).len()
            ==> plain_line(#[trigger] optional_line("Branch: "@, e.evidence.branch)[i]),
        forall|i: int| 0 <= i < optional_line("Agent: "@, e.evidence.agent).len()
            ==> plain_line(#[trigger] optional_line("Agent: "@, e.evidence.agent)[i]),
{
    reveal_strlit("Verification command: ");
    reveal_strlit("Verification reference: ");
    reveal_strlit("Verification run: ");
    reveal_strlit("Target URL: ");
    reveal_strlit("Commit: ");
    reveal_strlit("Branch: ");
    reveal_strlit("Agent: ");
    lemma_optional_plain("Verification command: "@, e.verification.command);
    lemma_optional_plain("Verification reference: "@, e.verification.reference);
    lemma_optional_plain("Verification run: "@, e.verification.run_id);
    lemma_optional_plain("Target URL: "@, e.verification.target_url);
    lemma_optional_plain("Commit: "@, e.evidence.commit_sha);
    lemma_optional_plain("Branch: "@, e.evidence.branch);
    lemma_optional_plain("Agent: "@, e.evidence.agent);
}

proof fn lemma_note_front_plain(e: EngineeringExperience)
    ensures
        forall|i: int| 0 <= i < note_front(e).len() ==> plain_line(#[trigger] note_front(e)[i]),
{
    reveal_strlit("Files changed: ");
    lemma_head_plain(e);
    lemma_details_plain(e);
    let head = note_head(e);
    assert forall|i: int| 0 <= i < head.len() implies plain_line(#[trigger] head[i]) by {}
    let o1 = optional_line("Verification command: "@, e.verification.command);
    let o2 = optional_line("Verification reference: "@, e.verification.reference);
    let o3 = optional_line("Verification run: "@, e.verification.run_id);
    let o4 = optional_line("Target URL: "@, e.verification.target_url);
    let o5 = optional_line("Commit: "@, e.evidence.commit_sha);
    let o6 = optional_line("Branch: "@, e.evidence.branch);
    let o7 = optional_line("Agent: "@, e.evidence.agent);
    let files: Seq<Seq<char>> = if e.evidence.files_changed@.len() == 0 {
        Seq::empty()
    } else {
        seq!["Files changed: "@ + joined(views(e.evidence.files_changed@), ", "@)]
    };
    assert forall|i: int| 0 <= i < files.len() implies plain_line(#[trigger] files[i]) by {
        assert(files[i][0] == 'F');
    }
    let blank: Seq<Seq<char>> = seq![Seq::<char>::empty()];
    assert forall|i: int| 0 <= i < blank.len() implies plain_line(#[trigger] blank[i]) by {}
    lemma_plain_concat(head, o1);
    lemma_plain_concat(head + o1, o2);
    lemma_plain_concat(head + o1 + o2, o3);
    lemma_plain_concat(head + o1 + o2 + o3, o4);
    lemma_plain_concat(head + o1 + o2 + o3 + o4, o5);
    lemma_plain_concat(head + o1 + o2 + o3 + o4 + o5, o6);
    lemma_plain_concat(head + o1 + o2 + o3 + o4 + o5 + o6, o7);
    lemma_plain_concat(head + o1 + o2 + o3 + o4 + o5 + o6 + o7, files);
    lemma_plain_concat(head + o1 + o2 + o3 + o4 + o5 + o6 + o7 + files, blank);
}

/// The failed-attempt lines a trajectory note owes: one per attempt.
pub open spec fn attempt_lines(e: EngineeringExperience) -> Seq<Seq<char>> {
    e.trajectory.failed_attempts@.map_values(|a: String| "- FAILED: "@ + a@)
}

proof fn lemma_filter_parts(front: Seq<Seq<char>>, m: Seq<Seq<char>>, succ: Seq<Seq<char>>)
    requires
        forall|i: int| 0 <= i < front.len() ==> plain_line(#[trigger] front[i]),
        forall|i: int| 0 <= i < m.len() ==> is_failed_line(#[trigger] m[i]),
        forall|i: int| 0 <= i < succ.len() ==> !failed_lines()(#[trigger] succ[i]),
    ensures
        (front + m + succ).filter(failed_lines()) == m,
{
    lemma_plain_lines_filter_empty(front);
    succ.lemma_all_neg_filter_empty(failed_lines());
    lemma_failed_lines_kept(m);
    vstd::seq::Seq::filter_distributes_over_add(front + m, succ, failed_lines());
    vstd::seq::Seq::filter_distributes_over_add(front, m, failed_lines());
    assert((front + m + succ).filter(failed_lines()) =~= m);
}

proof fn lemma_note_parts(e: EngineeringExperience)
    ensures
        trajectory_lines(e) == note_front(e) + attempt_lines(e) + note_success(e),
{
    assert(trajectory_lines(e) =~= note_front(e) + attempt_lines(e) + note_success(e));
}

/// A trajectory note lists every failed attempt, once and in order: its
/// failed-attempt lines are exactly one `- FAILED: ` line per attempt.
pub proof fn lemma_trajectory_lists_every_attempt(e: EngineeringExperience)
    ensures
        trajectory_lines(e).filter(failed_lines()).len() == e.trajectory.failed_attempts@.len(),
        forall|j: int| 0 <= j < e.trajectory.failed_attempts@.len() ==> #[trigger] trajectory_lines(e).filter(failed_lines())[j]
            == "- FAILED: "@ + e.trajectory.failed_attempts@[j]@,
{
    let front = note_front(e);
    let succ = note_success(e);
    let m = attempt_lines(e);
    lemma_note_front_plain(e);
    lemma_success_not_failed(e);
    lemma_attempt_lines_failed(e);
    lemma_note_parts(e);
    lemma_filter_parts(front, m, succ);
}

proof fn lemma_success_not_failed(e: EngineeringExperience)
    ensures
        forall|i: int| 0 <= i < note_success(e).len() ==> !failed_lines()(#[trigger] note_success(e)[i]),
{
    reveal_strlit("- FAILED: ");
    reveal_strlit("- SUCCESS: ");
    let succ = note_success(e);
    assert forall|i: int| 0 <= i < succ.len() implies !failed_lines()(#[trigger] succ[i]) by {
        let l = succ[i];
        assert(l[2] == 'S');
        if is_failed_line(l) {
            assert(l.take(10)[2] == l[2]);
        }
    }
}

proof fn lemma_attempt_lines_failed(e: EngineeringExperience)
    ensures
        forall|i: int| 0 <= i < attempt_lines(e).len() ==> is_failed_line(#[trigger] attempt_lines(e)[i]),
{
    reveal_strlit("- FAILED: ");
    let m = attempt_lines(e);
    assert forall|i: int| 0 <= i < m.len() implies is_failed_line(#[trigger] m[i]) by {
        assert(m[i].take(10) =~= "- FAILED: "@);
    }
}

/// `line` stands on a line of its own in `doc`: right after a line break and
/// right before one.
pub open spec fn has_line(doc: Seq<char>, line: Seq<char>) -> bool {
    exists|k: int|
        0 < k && k + line.len() < doc.len() && doc[k - 1] == '\n' && #[trigger] doc.subrange(k, k + line.len()) == line
            && doc[k + line.len()] == '\n'
}

/// The text ends with a line break.
pub open spec fn ends_line(x: Seq<char>) -> bool {
    x.len() > 0 && x.last() == '\n'
}

proof fn lemma_ends_line_extend(x: Seq<char>, label: Seq<char>, o: Option<String>)
    requires
        ends_line(x),
    ensures
        ends_line(x + detail_line(label, o)),
{
    reveal_strlit("\n");
    if o is Some {
        assert((x + detail_line(label, o)).last() == detail_line(label, o).last());
    } else {
        assert(x + detail_line(label, o) =~= x);
    }
}

proof fn lemma_detail_visible(pre: Seq<char>, label: Seq<char>, o: Option<String>, post: Seq<char>)
    requires
        ends_line(pre),
        o is Some,
    ensures
        has_line(pre + detail_line(label, o) + post, label + o->0@),
{
    reveal_strlit("\n");
    let line = label + o->0@;
    let doc = pre + detail_line(label, o) + post;
    assert(doc =~= pre + line + (seq!['\n'] + post));
    let k = pre.len() as int;
    assert(doc[k - 1] == '\n');
    assert(doc.subrange(k, k + line.len()) =~= line);
    assert(doc[k + line.len()] == '\n');
}

/// The verification part of a section before its verifier details.
pub open spec fn verification_opening(e: EngineeringExperience) -> Seq<char> {
    "Verification:\n"@ + "- Source: "@ + source_label(e.verification.source) + "\n"@ + "- Result: "@
        + result_label(e.verification.result) + "\n"@
}

/// The verification part of a section after its verifier details.
pub open spec fn verification_closing(e: EngineeringExperience) -> Seq<char> {
    (if e.evidence.files_changed@.len() == 0 {
        Seq::empty()
    } else {
        "- Files changed:\n"@ + item_lines("  - "@, e.evidence.files_changed@)
    }) + "\n"@
}

proof fn lemma_regroup(h: Seq<char>, v: Seq<char>, ds: Seq<Seq<char>>, c: Seq<char>, t: Seq<char>)
    requires
        ds.len() == 7,
    ensures
        h + (v + (ds[0] + ds[1] + ds[2] + ds[3] + ds[4] + ds[5] + ds[6]) + c) + t
            == h + v + ds[0] + ds[1] + ds[2] + ds[3] + ds[4] + ds[5] + ds[6] + (c + t),
{
    assert(h + (v + (ds[0] + ds[1] + ds[2] + ds[3] + ds[4] + ds[5] + ds[6]) + c) + t
        =~= h + v + ds[0] + ds[1] + ds[2] + ds[3] + ds[4] + ds[5] + ds[6] + (c + t));
}

proof fn lemma_split_at(p: Seq<char>, ds: Seq<Seq<char>>, q: Seq<char>)
    requires
        ds.len() == 7,
    ensures
        p + ds[0] + ds[1] + ds[2] + ds[3] + ds[4] + ds[5] + ds[6] + q == p + ds[0] + (ds[1] + ds[2] + ds[3] + ds[4] + ds[5] + ds[6] + q),
        p + ds[0] + ds[1] + ds[2] + ds[3] + ds[4] + ds[5] + ds[6] + q == (p + ds[0]) + ds[1] + (ds[2] + ds[3] + ds[4] + ds[5] + ds[6] + q),
        p + ds[0] + ds[1] + ds[2] + ds[3] + ds[4] + ds[5] + ds[6] + q == (p + ds[0] + ds[1]) + ds[2] + (ds[3] + ds[4] + ds[5] + ds[6] + q),
        p + ds[0] + ds[1] + ds[2] + ds[3] + ds[4] + ds[5] + ds[6] + q == (p + ds[0] + ds[1] + ds[2]) + ds[3] + (ds[4] + ds[5] + ds[6] + q),
        p + ds[0] + ds[1] + ds[2] + ds[3] + ds[4] + ds[5] + ds[6] + q == (p + ds[0] + ds[1] + ds[2] + ds[3]) + ds[4] + (ds[5] + ds[6] + q),
        p + ds[0] + ds[1] + ds[2] + ds[3] + ds[4] + ds[5] + ds[6] + q == (p + ds[0] + ds[1] + ds[2] + ds[3] + ds[4]) + ds[5] + (ds[6] + q),
{
    let all = p + ds[0] + ds[1] + ds[2] + ds[3] + ds[4] + ds[5] + ds[6] + q;
    assert(all =~= p + ds[0] + (ds[1] + ds[2] + ds[3] + ds[4] + ds[5] + ds[6] + q));
    assert(all =~= (p + ds[0]) + ds[1] + (ds[2] + ds[3] + ds[4] + ds[5] + ds[6] + q));
    assert(all =~= (p + ds[0] + ds[1]) + ds[2] + (ds[3] + ds[4] + ds[5] + ds[6] + q));
    assert(all =~= (p + ds[0] + ds[1] + ds[2]) + ds[3] + (ds[4] + ds[5] + ds[6] + q));
    assert(all =~= (p + ds[0] + ds[1] + ds[2] + ds[3]) + ds[4] + (ds[5] + ds[6] + q));
    assert(all =~= (p + ds[0] + ds[1] + ds[2] + ds[3] + ds[4]) + ds[5] + (ds[6] + q));
}

/// The verifier detail lines of a section, in order.
pub open spec fn detail_lines(e: EngineeringExperience) -> Seq<Seq<char>> {
    seq![
        detail_line("- Command: "@, e.verification.command),
        detail_line("- Reference: "@, e.verification.reference),
        detail_line("- Run: "@, e.verification.run_id),
        detail_line("- Target URL: "@, e.verification.target_url),
        detail_line("- Commit: "@, e.evidence.commit_sha),
        detail_line("- Branch: "@, e.evidence.branch),
        detail_line("- Agent: "@, e.evidence.agent),
    ]
}

proof fn lemma_section_parts(e: EngineeringExperience, confidence: Seq<char>)
    ensures
        loop_section(e, confidence) == section_head(e) + verification_opening(e) + detail_lines(e)[0]
            + detail_lines(e)[1] + detail_lines(e)[2] + detail_lines(e)[3] + detail_lines(e)[4]
            + detail_lines(e)[5] + detail_lines(e)[6] + (verification_closing(e) + section_tail(e, confidence)),
        ends_line(section_head(e) + verification_opening(e)),
{
    reveal_strlit("\n");
    let ds = detail_lines(e);
    let v = verification_opening(e);
    let files: Seq<char> = if e.evidence.files_changed@.len() == 0 {
        Seq::empty()
    } else {
        "- Files changed:\n"@ + item_lines("  - "@, e.evidence.files_changed@)
    };
    let d = ds[0] + ds[1] + ds[2] + ds[3] + ds[4] + ds[5] + ds[6];
    assert(section_details(e) == d);
    assert(section_verification(e) == v + d + files + "\n"@);
    assert(v + d + files + "\n"@ =~= v + d + verification_closing(e));
    lemma_regroup(section_head(e), v, ds, verification_closing(e), section_tail(e, confidence));
    let p = section_head(e) + v;
    assert(p.last() == v.last());
}

/// A section of `LOOP.md` shows every verifier detail an experience has, each
/// on a line of its own: command, reference, run, target URL, commit, branch
/// and agent.
pub proof fn lemma_loop_section_shows_details(e: EngineeringExperience, confidence: Seq<char>)
    ensures
        e.verification.command is Some ==> has_line(loop_section(e, confidence), "- Command: "@ + e.verification.command->0@),
        e.verification.reference is Some ==> has_line(loop_section(e, confidence), "- Reference: "@ + e.verification.reference->0@),
        e.verification.run_id is Some ==> has_line(loop_section(e, confidence), "- Run: "@ + e.verification.run_id->0@),
        e.verification.target_url is Some ==> has_line(loop_section(e, confidence), "- Target URL: "@ + e.verification.target_url->0@),
        e.evidence.commit_sha is Some ==> has_line(loop_section(e, confidence), "- Commit: "@ + e.evidence.commit_sha->0@),
        e.evidence.branch is Some ==> has_line(loop_section(e, confidence), "- Branch: "@ + e.evidence.branch->0@),
        e.evidence.agent is Some ==> has_line(loop_section(e, confidence), "- Agent: "@ + e.evidence.agent->0@),
{
    lemma_section_parts(e, confidence);
    let ds = detail_lines(e);
    let q = verification_closing(e) + section_tail(e, confidence);
    let p0 = section_head(e) + verification_opening(e);
    lemma_split_at(p0, ds, q);
    let p1 = p0 + ds[0];
    let p2 = p1 + ds[1];
    let p3 = p2 + ds[2];
    let p4 = p3 + ds[3];
    let p5 = p4 + ds[4];
    lemma_ends_line_extend(p0, "- Command: "@, e.verification.command);
    lemma_ends_line_extend(p1, "- Reference: "@, e.verification.reference);
    lemma_ends_line_extend(p2, "- Run: "@, e.verification.run_id);
    lemma_ends_line_extend(p3, "- Target URL: "@, e.verification.target_url);
    lemma_ends_line_extend(p4, "- Commit: "@, e.evidence.commit_sha);
    lemma_ends_line_extend(p5, "- Branch: "@, e.evidence.branch);
    if e.verification.command is Some {
        lemma_detail_visible(p0, "- Command: "@, e.verification.command, ds[1] + ds[2] + ds[3] + ds[4] + ds[5] + ds[6] + q);
    }
    if e.verification.reference is Some {
        lemma_detail_visible(p1, "- Reference: "@, e.verification.reference, ds[2] + ds[3] + ds[4] + ds[5] + ds[6] + q);
    }
    if e.verification.run_id is Some {
        lemma_detail_visible(p2, "- Run: "@, e.verification.run_id, ds[3] + ds[4] + ds[5] + ds[6] + q);
    }
    if e.verification.target_url is Some {
        lemma_detail_visible(p3, "- Target URL: "@, e.verification.target_url, ds[4] + ds[5] + ds[6] + q);
    }
    if e.evidence.commit_sha is Some {
        lemma_detail_visible(p4, "- Commit: "@, e.evidence.commit_sha, ds[5] + ds[6] + q);
    }
    if e.evidence.branch is Some {
        lemma_detail_visible(p5, "- Branch: "@, e.evidence.branch, ds[6] + q);
    }
    if e.evidence.agent is Some {
        let p6 = p5 + ds[5];
        lemma_ends_line_extend(p5, "- Branch: "@, e.evidence.branch);
        assert(p6 + ds[6] + q == p0 + ds[0] + ds[1] + ds[2] + ds[3] + ds[4] + ds[5] + ds[6] + q);
        lemma_detail_visible(p6, "- Agent: "@, e.evidence.agent, q);
    }
}

} // verus!
