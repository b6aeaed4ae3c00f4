//! Recall: which stored experiences bear on a new task, why, and in what order.

use vstd::prelude::*;
use crate::experience::{context_text_of, experience_context_text, experience_text, experience_text_of};
use crate::model::{EngineeringExperience, ExperienceOutcome, RecallInput};
use crate::text::{
    clone_strings, join, joined, lemma_text_before_irreflexive, text_before, text_eq, views,
};
use crate::tokens::{has_text, holds_text, insert_sorted, strictly_sorted, text_set, token_set, tokenize};

verus! {

/// The search terms of a recall request.
#[derive(Debug, Clone)]
pub struct RecallQuery {
    pub task_tokens: Vec<String>,
    pub file_tokens: Vec<String>,
    pub stack_tokens: Vec<String>,
}

/// The text of a request's stack: languages, then frameworks.
pub open spec fn stack_text_of(input: RecallInput) -> Seq<char> {
    joined(views(input.languages@), " "@) + " "@ + joined(views(input.frameworks@), " "@)
}

/// The terms of a request: those of its task, of its files, of its stack, each
/// list sorted and free of repeats.
pub open spec fn is_query_of(q: RecallQuery, input: RecallInput) -> bool {
    &&& strictly_sorted(q.task_tokens@)
    &&& strictly_sorted(q.file_tokens@)
    &&& strictly_sorted(q.stack_tokens@)
    &&& text_set(q.task_tokens@) == token_set(input.task@)
    &&& text_set(q.file_tokens@) == token_set(joined(views(input.files@), " "@))
    &&& text_set(q.stack_tokens@) == token_set(stack_text_of(input))
}

impl RecallQuery {
    /// Tokenizes the task, the files and the stack of a recall request.
    pub fn from_input(input: &RecallInput) -> (q: RecallQuery)
        ensures
            is_query_of(q, *input),
    {
        let task_tokens = tokenize(input.task.as_str());
        let files = join(&input.files, " ");
        let file_tokens = tokenize(files.as_str());
        let mut stack = join(&input.languages, " ");
        stack.append(" ");
        stack.append(join(&input.frameworks, " ").as_str());
        let stack_tokens = tokenize(stack.as_str());
        RecallQuery { task_tokens, file_tokens, stack_tokens }
    }
}

/// The terms two term lists share, sorted and free of repeats.
pub fn overlap_terms(left: &Vec<String>, right: &Vec<String>) -> (r: Vec<String>)
    ensures
        strictly_sorted(r@),
        text_set(r@) == text_set(left@).intersect(text_set(right@)),
{
    let mut out: Vec<String> = Vec::new();
    let mut i: usize = 0;
    while i < left.len()
        invariant
            i <= left.len(),
            strictly_sorted(out@),
            forall|x: Seq<char>|
                #![trigger has_text(out@, x)]
                has_text(out@, x) <==> (has_text(left@.take(i as int), x) && has_text(right@, x)),
        decreases left.len() - i,
    {
        if holds_text(right, left[i].as_str()) {
            insert_sorted(&mut out, left[i].clone());
        }
        proof {
            let now = left@.take(i + 1);
            assert forall|x: Seq<char>| #![trigger has_text(out@, x)]
                has_text(out@, x) <==> (has_text(now, x) && has_text(right@, x)) by {
                if has_text(now, x) {
                    let k = choose|k: int| 0 <= k < now.len() && #[trigger] now[k]@ == x;
                    if k < i {
                        assert(left@.take(i as int)[k]@ == x);
                    }
                }
                if has_text(left@.take(i as int), x) {
                    let k = choose|k: int| 0 <= k < i && #[trigger] left@.take(i as int)[k]@ == x;
                    assert(now[k]@ == x);
                }
                if x == left@[i as int]@ {
                    assert(now[i as int]@ == x);
                }
            }
        }
        i = i + 1;
    }
    proof {
        assert(left@.take(left.len() as int) =~= left@);
        assert(text_set(out@) =~= text_set(left@).intersect(text_set(right@)));
    }
    out
}


/// How many experiences a term occurs in.
#[derive(Debug, Clone)]
pub struct TermCount {
    pub term: String,
    pub documents: usize,
}

/// The number of experiences whose text holds a term.
pub open spec fn docs_containing(es: Seq<EngineeringExperience>, t: Seq<char>) -> nat
    decreases es.len(),
{
    if es.len() == 0 {
        0
    } else {
        docs_containing(es.drop_last(), t) + (if token_set(experience_text_of(es.last())).contains(t) {
            1nat
        } else {
            0nat
        })
    }
}

pub(crate) proof fn lemma_docs_containing_bound(es: Seq<EngineeringExperience>, t: Seq<char>)
    ensures
        docs_containing(es, t) <= es.len(),
    decreases es.len(),
{
    if es.len() > 0 {
        lemma_docs_containing_bound(es.drop_last(), t);
    }
}

/// The table lists each term of the experiences' texts once, with the number
/// of experiences it occurs in, and no other term.
pub open spec fn is_frequency_table(table: Seq<TermCount>, es: Seq<EngineeringExperience>) -> bool {
    &&& forall|i: int, j: int| 0 <= i < j < table.len() ==> table[i].term@ != table[j].term@
    &&& forall|i: int| 0 <= i < table.len() ==> #[trigger] table[i].documents == docs_containing(es, table[i].term@)
    &&& forall|t: Seq<char>| #[trigger] docs_containing(es, t) > 0 <==> listed(table, t)
}

/// The table has an entry for the term.
pub open spec fn listed(table: Seq<TermCount>, t: Seq<char>) -> bool {
    exists|i: int| 0 <= i < table.len() && #[trigger] table[i].term@ == t
}

/// Finds the entry of a term in a table.
fn find_term(table: &Vec<TermCount>, t: &str) -> (r: Option<usize>)
    ensures
        r matches Some(i) ==> i < table@.len() && table@[i as int].term@ == t@,
        r is None ==> forall|a: int| 0 <= a < table@.len() ==> table@[a].term@ != t@,
{
    let mut i: usize = 0;
    while i < table.len()
        invariant
            i <= table@.len(),
            forall|a: int| 0 <= a < i ==> table@[a].term@ != t@,
        decreases table.len() - i,
    {
        if text_eq(table[i].term.as_str(), t) {
            return Some(i);
        }
        i = i + 1;
    }
    None
}

/// Counts, for each term of the experiences' texts, how many experiences it occurs in.
pub fn document_frequency(experiences: &Vec<EngineeringExperience>) -> (r: Vec<TermCount>)
    ensures
        is_frequency_table(r@, experiences@),
{
    let mut table: Vec<TermCount> = Vec::new();
    let mut j: usize = 0;
    while j < experiences.len()
        invariant
            j <= experiences.len(),
            is_frequency_table(table@, experiences@.take(j as int)),
        decreases experiences.len() - j,
    {
        let ghost done = experiences@.take(j as int);
        let ghost next = experiences@.take(j + 1);
        proof {
            assert(next.drop_last() =~= done);
        }
        let tokens = tokenize(experience_text(&experiences[j]).as_str());
        let ghost doc = token_set(experience_text_of(experiences@[j as int]));
        let mut k: usize = 0;
        while k < tokens.len()
            invariant
                j < experiences.len(),
                done == experiences@.take(j as int),
                next == experiences@.take(j + 1),
                next.drop_last() == done,
                next.last() == experiences@[j as int],
                doc == token_set(experience_text_of(experiences@[j as int])),
                text_set(tokens@) == doc,
                strictly_sorted(tokens@),
                k <= tokens.len(),
                forall|a: int, b: int| 0 <= a < b < table@.len() ==> table@[a].term@ != table@[b].term@,
                forall|i: int| 0 <= i < table@.len() ==> #[trigger] table@[i].documents == docs_containing(done, table@[i].term@)
                    + (if has_text(tokens@.take(k as int), table@[i].term@) { 1nat } else { 0nat }),
                forall|t: Seq<char>| (docs_containing(done, t) > 0 || has_text(tokens@.take(k as int), t)) <==> #[trigger] listed(table@, t),
            decreases tokens.len() - k,
        {
            let ghost before = table@;
            let ghost tk = tokens@[k as int]@;
            proof {
                if has_text(tokens@.take(k as int), tk) {
                    let a = choose|a: int| 0 <= a < k && #[trigger] tokens@.take(k as int)[a]@ == tk;
                    assert(text_before(tokens@[a]@, tokens@[k as int]@));
                    lemma_text_before_irreflexive(tk);
                }
                lemma_docs_containing_bound(done, tk);
            }
            let found = find_term(&table, tokens[k].as_str());
            match found {
                Some(i) => {
                    let count = table[i].documents;
                    table[i].documents = count + 1;
                },
                None => {
                    table.push(TermCount { term: tokens[k].clone(), documents: 1 });
                },
            }
            proof {
                let taken = tokens@.take(k as int);
                let taken1 = tokens@.take(k + 1);
                assert(taken1 =~= taken.push(tokens@[k as int]));
                assert forall|x: Seq<char>| #[trigger] has_text(taken1, x) <==> (has_text(taken, x) || x == tk) by {
                    if has_text(taken1, x) {
                        let a = choose|a: int| 0 <= a < taken1.len() && #[trigger] taken1[a]@ == x;
                        if a < k {
                            assert(taken[a]@ == x);
                        }
                    }
                    if has_text(taken, x) {
                        let a = choose|a: int| 0 <= a < taken.len() && #[trigger] taken[a]@ == x;
                        assert(taken1[a]@ == x);
                    }
                    if x == tk {
                        assert(taken1[k as int]@ == x);
                    }
                }
                assert forall|t: Seq<char>| (docs_containing(done, t) > 0 || has_text(taken1, t)) <==> #[trigger] listed(table@, t) by {
                    if listed(table@, t) {
                        let a = choose|a: int| 0 <= a < table@.len() && #[trigger] table@[a].term@ == t;
                        if a < before.len() {
                            assert(before[a].term@ == t);
                            assert(listed(before, t));
                        }
                    }
                    if listed(before, t) {
                        let a = choose|a: int| 0 <= a < before.len() && #[trigger] before[a].term@ == t;
                        assert(table@[a].term@ == t);
                    }
                    if t == tk && !listed(before, t) {
                        assert(table@[before.len() as int].term@ == t);
                    }
                }
                assert forall|i: int| 0 <= i < table@.len() implies #[trigger] table@[i].documents == docs_containing(done, table@[i].term@)
                    + (if has_text(taken1, table@[i].term@) { 1nat } else { 0nat }) by {
                    if i < before.len() {
                        assert(table@[i].term@ == before[i].term@);
                        if table@[i].term@ != tk {
                            assert(table@[i].documents == before[i].documents);
                        }
                    } else {
                        assert(!listed(before, tk));
                        assert(docs_containing(done, tk) == 0);
                    }
                }
            }
            k = k + 1;
        }
        proof {
            assert(tokens@.take(tokens.len() as int) =~= tokens@);
            assert forall|t: Seq<char>| #[trigger] has_text(tokens@, t) == doc.contains(t) by {
                assert(text_set(tokens@).contains(t) == has_text(tokens@, t));
            }
            assert forall|t: Seq<char>| #[trigger] docs_containing(next, t) == docs_containing(done, t) + (if has_text(tokens@, t) { 1nat } else { 0nat }) by {
            }
        }
        j = j + 1;
    }
    proof {
        assert(experiences@.take(experiences.len() as int) =~= experiences@);
    }
    table
}


/// The weight recall gives a term: the number of experiences it occurs in, or
/// one for a term none holds.
pub open spec fn term_weight(es: Seq<EngineeringExperience>, t: Seq<char>) -> nat {
    if docs_containing(es, t) > 0 {
        docs_containing(es, t)
    } else {
        1
    }
}

/// Looks up the weight of each term in a frequency table.
fn frequencies_for(table: &Vec<TermCount>, terms: &Vec<String>, Ghost(es): Ghost<Seq<EngineeringExperience>>) -> (r: Vec<usize>)
    requires
        is_frequency_table(table@, es),
    ensures
        r@.len() == terms@.len(),
        forall|i: int| 0 <= i < terms@.len() ==> #[trigger] r@[i] == term_weight(es, terms@[i]@),
{
    let mut out: Vec<usize> = Vec::new();
    let mut i: usize = 0;
    while i < terms.len()
        invariant
            i <= terms@.len(),
            is_frequency_table(table@, es),
            out@.len() == i,
            forall|a: int| 0 <= a < i ==> #[trigger] out@[a] == term_weight(es, terms@[a]@),
        decreases terms.len() - i,
    {
        let ghost t = terms@[i as int]@;
        match find_term(table, terms[i].as_str()) {
            Some(at) => {
                proof {
                    assert(listed(table@, t));
                }
                out.push(table[at].documents);
            },
            None => {
                proof {
                    if listed(table@, t) {
                        let a = choose|a: int| 0 <= a < table@.len() && #[trigger] table@[a].term@ == t;
                    }
                }
                out.push(1);
            },
        }
        i = i + 1;
    }
    out
}

/// Why an experience was recalled: the task, stack and file terms it shares
/// with the request, and whether its outcome was a verified success.
pub open spec fn reasons_of(
    terms: Seq<String>,
    context_terms: Seq<String>,
    file_terms: Seq<String>,
    outcome: ExperienceOutcome,
) -> Seq<Seq<char>> {
    (if terms.len() > 0 {
        seq!["task overlap: "@ + joined(views(terms), ", "@)]
    } else {
        Seq::empty()
    }) + (if context_terms.len() > 0 {
        seq!["stack overlap: "@ + joined(views(context_terms), ", "@)]
    } else {
        Seq::empty()
    }) + (if file_terms.len() > 0 {
        seq!["file/path overlap: "@ + joined(views(file_terms), ", "@)]
    } else {
        Seq::empty()
    }) + (if outcome == ExperienceOutcome::VerifiedSuccess {
        seq!["verified successful outcome"@]
    } else {
        Seq::empty()
    })
}

fn labelled(label: &str, terms: &Vec<String>) -> (r: String)
    ensures
        r@ == label@ + joined(views(terms@), ", "@),
{
    let mut out = String::from_str(label);
    out.append(join(terms, ", ").as_str());
    out
}

/// Explains why an experience was recalled.
pub fn recall_reasons(
    terms: &Vec<String>,
    context_terms: &Vec<String>,
    file_terms: &Vec<String>,
    experience: &EngineeringExperience,
) -> (r: Vec<String>)
    ensures
        views(r@) == reasons_of(terms@, context_terms@, file_terms@, experience.outcome),
{
    let mut reasons: Vec<String> = Vec::new();
    if terms.len() > 0 {
        reasons.push(labelled("task overlap: ", terms));
    }
    if context_terms.len() > 0 {
        reasons.push(labelled("stack overlap: ", context_terms));
    }
    if file_terms.len() > 0 {
        reasons.push(labelled("file/path overlap: ", file_terms));
    }
    if experience.outcome == ExperienceOutcome::VerifiedSuccess {
        reasons.push(String::from_str("verified successful outcome"));
    }
    assert(views(reasons@) =~= reasons_of(terms@, context_terms@, file_terms@, experience.outcome));
    reasons
}

/// A recalled experience with what it shares with the request. `rank_key`
/// orders the matches: a larger key ranks first.
#[derive(Debug, Clone)]
pub struct RecallMatch {
    pub experience: EngineeringExperience,
    pub rank_key: i64,
    pub matched_terms: Vec<String>,
    pub matched_context_terms: Vec<String>,
    pub matched_file_terms: Vec<String>,
    pub reason: Vec<String>,
    pub term_weights: Vec<usize>,
}

/// The text of an experience's changed files: verification's, then code evidence's.
pub open spec fn file_text_of(e: EngineeringExperience) -> Seq<char> {
    joined(views(e.verification.files_changed@), " "@) + " "@ + joined(views(e.evidence.files_changed@), " "@)
}

/// The request's task terms found in the experience's text.
pub open spec fn task_overlap(q: RecallQuery, e: EngineeringExperience) -> Set<Seq<char>> {
    text_set(q.task_tokens@).intersect(token_set(experience_text_of(e)))
}

/// The request's stack terms found in the experience's stack.
pub open spec fn stack_overlap(q: RecallQuery, e: EngineeringExperience) -> Set<Seq<char>> {
    text_set(q.stack_tokens@).intersect(token_set(context_text_of(e)))
}

/// The request's file terms found in the experience's changed files.
pub open spec fn file_overlap(q: RecallQuery, e: EngineeringExperience) -> Set<Seq<char>> {
    text_set(q.file_tokens@).intersect(token_set(file_text_of(e)))
}

/// The experience shares no term at all with the request.
pub open spec fn shares_nothing(q: RecallQuery, e: EngineeringExperience) -> bool {
    &&& task_overlap(q, e) == Set::<Seq<char>>::empty()
    &&& stack_overlap(q, e) == Set::<Seq<char>>::empty()
    &&& file_overlap(q, e) == Set::<Seq<char>>::empty()
}

/// `m` is what matching `e` against the request gives, term weights taken over `es`.
pub open spec fn is_match_of(q: RecallQuery, e: EngineeringExperience, es: Seq<EngineeringExperience>, m: RecallMatch) -> bool {
    &&& m.experience == e
    &&& m.rank_key == 0
    &&& strictly_sorted(m.matched_terms@)
    &&& strictly_sorted(m.matched_context_terms@)
    &&& strictly_sorted(m.matched_file_terms@)
    &&& text_set(m.matched_terms@) == task_overlap(q, e)
    &&& text_set(m.matched_context_terms@) == stack_overlap(q, e)
    &&& text_set(m.matched_file_terms@) == file_overlap(q, e)
    &&& views(m.reason@) == reasons_of(m.matched_terms@, m.matched_context_terms@, m.matched_file_terms@, e.outcome)
    &&& m.term_weights@.len() == m.matched_terms@.len()
    &&& forall|i: int| 0 <= i < m.term_weights@.len() ==> #[trigger] m.term_weights@[i] == term_weight(es, m.matched_terms@[i]@)
}

proof fn lemma_empty_list_set(v: Seq<String>)
    ensures
        v.len() == 0 <==> text_set(v) == Set::<Seq<char>>::empty(),
{
    if v.len() == 0 {
        assert(text_set(v) =~= Set::<Seq<char>>::empty());
    } else {
        assert(text_set(v).contains(v[0]@));
    }
}

/// Matches one experience against a request: `None` when they share no term.
fn match_experience(
    q: &RecallQuery,
    e: EngineeringExperience,
    table: &Vec<TermCount>,
    Ghost(es): Ghost<Seq<EngineeringExperience>>,
) -> (r: Option<RecallMatch>)
    requires
        is_frequency_table(table@, es),
        strictly_sorted(q.task_tokens@),
        strictly_sorted(q.stack_tokens@),
        strictly_sorted(q.file_tokens@),
    ensures
        r is None <==> shares_nothing(*q, e),
        r matches Some(m) ==> is_match_of(*q, e, es, m),
{
    let doc_tokens = tokenize(experience_text(&e).as_str());
    let matched_terms = overlap_terms(&q.task_tokens, &doc_tokens);
    let context_tokens = tokenize(experience_context_text(&e).as_str());
    let matched_context_terms = overlap_terms(&q.stack_tokens, &context_tokens);
    let mut files = join(&e.verification.files_changed, " ");
    files.append(" ");
    files.append(join(&e.evidence.files_changed, " ").as_str());
    let file_tokens = tokenize(files.as_str());
    let matched_file_terms = overlap_terms(&q.file_tokens, &file_tokens);
    proof {
        lemma_empty_list_set(matched_terms@);
        lemma_empty_list_set(matched_context_terms@);
        lemma_empty_list_set(matched_file_terms@);
    }
    if matched_terms.len() == 0 && matched_context_terms.len() == 0 && matched_file_terms.len() == 0 {
        return None;
    }
    let reason = recall_reasons(&matched_terms, &matched_context_terms, &matched_file_terms, &e);
    let term_weights = frequencies_for(table, &matched_terms, Ghost(es));
    Some(RecallMatch {
        experience: e,
        rank_key: 0,
        matched_terms,
        matched_context_terms,
        matched_file_terms,
        reason,
        term_weights,
    })
}


/// The experiences that share at least one term with the request, in their order.
pub open spec fn sharing(q: RecallQuery, es: Seq<EngineeringExperience>) -> Seq<EngineeringExperience> {
    es.filter(|e: EngineeringExperience| !shares_nothing(q, e))
}

proof fn lemma_sharing_step(q: RecallQuery, s: Seq<EngineeringExperience>, e: EngineeringExperience)
    ensures
        sharing(q, s.push(e)) == (if shares_nothing(q, e) {
            sharing(q, s)
        } else {
            sharing(q, s).push(e)
        }),
{
    s.lemma_filter_push(e, |x: EngineeringExperience| !shares_nothing(q, x));
}

/// Matches every experience against a request, keeping those that share a
/// term with it, in their order.
pub fn collect_candidates(q: &RecallQuery, experiences: Vec<EngineeringExperience>) -> (r: Vec<RecallMatch>)
    requires
        strictly_sorted(q.task_tokens@),
        strictly_sorted(q.stack_tokens@),
        strictly_sorted(q.file_tokens@),
    ensures
        r@.len() == sharing(*q, experiences@).len(),
        forall|k: int| 0 <= k < r@.len() ==> #[trigger] is_match_of(*q, sharing(*q, experiences@)[k], experiences@, r@[k]),
{
    let ghost es = experiences@;
    let table = document_frequency(&experiences);
    let mut out: Vec<RecallMatch> = Vec::new();
    broadcast use vstd::std_specs::vec::axiom_spec_into_iter;
    proof {
        assert(es.take(0) =~= Seq::<EngineeringExperience>::empty());
        assert(sharing(*q, es.take(0)) =~= Seq::<EngineeringExperience>::empty());
    }
    for e in it: experiences.into_iter()
        invariant
            is_frequency_table(table@, es),
            strictly_sorted(q.task_tokens@),
            strictly_sorted(q.stack_tokens@),
            strictly_sorted(q.file_tokens@),
            it.seq() == es,
            out@.len() == sharing(*q, es.take(it.index() as int)).len(),
            forall|k: int| 0 <= k < out@.len() ==> #[trigger] is_match_of(*q, sharing(*q, es.take(it.index() as int))[k], es, out@[k]),
    {
        let ghost i = it.index() as int;
        let ghost before = sharing(*q, es.take(i));
        proof {
            assert(es.take(i + 1) =~= es.take(i).push(e));
            lemma_sharing_step(*q, es.take(i), e);
        }
        match match_experience(q, e, &table, Ghost(es)) {
            Some(m) => {
                out.push(m);
                assert forall|k: int| 0 <= k < out@.len() implies #[trigger] is_match_of(*q, sharing(*q, es.take(i + 1))[k], es, out@[k]) by {
                    if k < before.len() {
                        assert(sharing(*q, es.take(i + 1))[k] == before[k]);
                    }
                }
            },
            None => {},
        }
    }
    proof {
        assert(es.take(es.len() as int) =~= es);
    }
    out
}


/// Whether the `f32` with bits `a` comes strictly before the one with bits `b`
/// in the total order of `f32::total_cmp` (IEEE 754 `totalOrder`): negatives
/// (sign bit set) before positives, negatives by decreasing magnitude,
/// positives by increasing magnitude, with NaNs and zeros placed by their bits.
pub open spec fn total_before(a: u32, b: u32) -> bool {
    let a_negative = a >= 0x8000_0000u32;
    let b_negative = b >= 0x8000_0000u32;
    if a_negative != b_negative {
        a_negative
    } else if a_negative {
        a > b
    } else {
        a < b
    }
}

/// The rank key of a score given by its `f32` bits: the negative magnitudes
/// below zero, reversed, and the positive bit patterns as they are.
pub open spec fn score_key(bits: u32) -> int {
    if bits >= 0x8000_0000u32 {
        -(bits - 0x8000_0000u32) - 1
    } else {
        bits as int
    }
}

/// The rank key of a score given by its `f32` bits: keys order scores as
/// `f32::total_cmp` orders them (see `lemma_score_key_orders_scores`).
pub fn score_rank_key(bits: u32) -> (r: i64)
    ensures
        r == score_key(bits),
{
    if bits >= 0x8000_0000u32 {
        -((bits - 0x8000_0000u32) as i64) - 1
    } else {
        bits as i64
    }
}

/// Matches of this rank.
pub open spec fn with_rank(k: i64) -> spec_fn(RecallMatch) -> bool {
    |m: RecallMatch| m.rank_key == k
}

/// The matches stand in order of rank, larger keys first.
pub open spec fn ranked_desc(ms: Seq<RecallMatch>) -> bool {
    forall|i: int, j: int| 0 <= i < j < ms.len() ==> #[trigger] ms[i].rank_key >= #[trigger] ms[j].rank_key
}

/// `r` is `ms` ranked: ordered by rank, larger keys first, nothing added or
/// lost, and matches of equal rank in the order they came in.
pub open spec fn is_ranking_of(r: Seq<RecallMatch>, ms: Seq<RecallMatch>) -> bool {
    &&& ranked_desc(r)
    &&& r.to_multiset() == ms.to_multiset()
    &&& forall|k: i64| #[trigger] r.filter(with_rank(k)) == ms.filter(with_rank(k))
}

/// Orders matches by rank, larger keys first; matches of equal rank keep the
/// order they came in, as a stable sort does.
pub fn rank_matches(matches: Vec<RecallMatch>) -> (r: Vec<RecallMatch>)
    ensures
        is_ranking_of(r@, matches@),
{
    let ghost ms = matches@;
    let mut out: Vec<RecallMatch> = Vec::new();
    broadcast use vstd::std_specs::vec::axiom_spec_into_iter;
    proof {
        assert(ms.take(0) =~= Seq::<RecallMatch>::empty());
        assert(out@.to_multiset() =~= ms.take(0).to_multiset()) by {
            broadcast use vstd::seq_lib::group_to_multiset_ensures;
        }
        assert forall|k: i64| #[trigger] out@.filter(with_rank(k)) == ms.take(0).filter(with_rank(k)) by {
            reveal_with_fuel(Seq::filter, 1);
        }
    }
    for m in it: matches.into_iter()
        invariant
            it.seq() == ms,
            is_ranking_of(out@, ms.take(it.index() as int)),
    {
        let ghost i = it.index() as int;
        let ghost before = out@;
        let mut p: usize = 0;
        while p < out.len() && out[p].rank_key >= m.rank_key
            invariant
                p <= out@.len(),
                out@ == before,
                forall|a: int| 0 <= a < p ==> #[trigger] out@[a].rank_key >= m.rank_key,
            decreases out.len() - p,
        {
            p = p + 1;
        }
        proof {
            assert forall|a: int| p <= a < before.len() implies #[trigger] before[a].rank_key < m.rank_key by {
                if a > p {
                    assert(before[p as int].rank_key >= before[a].rank_key);
                }
            }
            crate::seqs::lemma_insert_multiset(before, p as int, m);
            assert forall|k: i64| #[trigger] before.insert(p as int, m).filter(with_rank(k)) == (if m.rank_key == k {
                before.filter(with_rank(k)).push(m)
            } else {
                before.filter(with_rank(k))
            }) by {
                crate::seqs::lemma_insert_filter(before, p as int, m, with_rank(k));
            }
            assert(ms.take(i + 1) =~= ms.take(i).push(m));
            assert forall|k: i64| #[trigger] ms.take(i + 1).filter(with_rank(k)) == (if m.rank_key == k {
                ms.take(i).filter(with_rank(k)).push(m)
            } else {
                ms.take(i).filter(with_rank(k))
            }) by {
                ms.take(i).lemma_filter_push(m, with_rank(k));
            }
            assert(ms.take(i).push(m).to_multiset() == ms.take(i).to_multiset().insert(m)) by {
                broadcast use vstd::seq_lib::group_to_multiset_ensures;
            }
        }
        out.insert(p, m);
        proof {
            assert(out@ == before.insert(p as int, m));
            assert forall|a: int, b: int| 0 <= a < b < out@.len() implies #[trigger] out@[a].rank_key >= #[trigger] out@[b].rank_key by {
                if b < p {
                } else if b == p {
                } else if a < p {
                    assert(out@[b] == before[b - 1]);
                } else if a == p {
                    assert(out@[b] == before[b - 1]);
                } else {
                    assert(out@[a] == before[a - 1] && out@[b] == before[b - 1]);
                }
            }
        }
    }
    proof {
        assert(ms.take(ms.len() as int) =~= ms);
    }
    out
}


/// What a recall answers: the best matches, the decisions worth reusing, the
/// attempts to avoid and the checks to run.
#[derive(Debug, Clone)]
pub struct RecallResult {
    pub query: String,
    pub matches: Vec<RecallMatch>,
    pub candidate_strategies: Vec<String>,
    pub avoid: Vec<String>,
    pub recommended_checks: Vec<String>,
}

/// How many matches a recall keeps: at most `top_k`, and at least one if there is any.
pub open spec fn kept_count(top_k: usize, available: nat) -> nat {
    let k: nat = if top_k == 0 { 1 } else { top_k as nat };
    if k < available { k } else { available }
}

/// The decisions of the verified successes among the matches, in order.
pub open spec fn strategies_of(ms: Seq<RecallMatch>) -> Seq<String>
    decreases ms.len(),
{
    if ms.len() == 0 {
        Seq::empty()
    } else {
        strategies_of(ms.drop_last()) + (if ms.last().experience.outcome == ExperienceOutcome::VerifiedSuccess {
            seq![ms.last().experience.trajectory.successful_decision]
        } else {
            Seq::empty()
        })
    }
}

/// The failed attempts of all the matches, in order.
pub open spec fn avoid_of(ms: Seq<RecallMatch>) -> Seq<String>
    decreases ms.len(),
{
    if ms.len() == 0 {
        Seq::empty()
    } else {
        avoid_of(ms.drop_last()) + ms.last().experience.trajectory.failed_attempts@
    }
}

/// The lessons of the matches, in order.
pub open spec fn checks_of(ms: Seq<RecallMatch>) -> Seq<String> {
    ms.map_values(|m: RecallMatch| m.experience.lesson)
}

/// Keeps the best `top_k` of ranked matches (at least one, if there is any)
/// and gathers from them the decisions worth reusing (those of verified
/// successes), the attempts to avoid and the lessons to check.
pub fn summarize_recall(query: String, ranked: Vec<RecallMatch>, top_k: usize) -> (r: RecallResult)
    ensures
        r.query == query,
        r.matches@ == ranked@.take(kept_count(top_k, ranked@.len()) as int),
        r.candidate_strategies@ == strategies_of(r.matches@),
        r.avoid@ == avoid_of(r.matches@),
        r.recommended_checks@ == checks_of(r.matches@),
{
    let keep = if top_k == 0 { 1 } else { top_k };
    let mut matches = ranked;
    if keep < matches.len() {
        matches.truncate(keep);
    }
    proof {
        if keep >= ranked@.len() {
            assert(ranked@.take(ranked@.len() as int) =~= ranked@);
        }
    }
    let mut candidate_strategies: Vec<String> = Vec::new();
    let mut avoid: Vec<String> = Vec::new();
    let mut recommended_checks: Vec<String> = Vec::new();
    let mut i: usize = 0;
    while i < matches.len()
        invariant
            i <= matches@.len(),
            candidate_strategies@ == strategies_of(matches@.take(i as int)),
            avoid@ == avoid_of(matches@.take(i as int)),
            recommended_checks@ == checks_of(matches@.take(i as int)),
        decreases matches.len() - i,
    {
        let ghost prefix = matches@.take(i as int);
        let ghost next = matches@.take(i + 1);
        proof {
            assert(next.drop_last() =~= prefix);
            assert(next.last() == matches@[i as int]);
        }
        let m = &matches[i];
        if m.experience.outcome == ExperienceOutcome::VerifiedSuccess {
            candidate_strategies.push(m.experience.trajectory.successful_decision.clone());
        }
        let mut j: usize = 0;
        let attempts = &m.experience.trajectory.failed_attempts;
        let ghost avoid_before = avoid@;
        while j < attempts.len()
            invariant
                j <= attempts@.len(),
                avoid@ == avoid_before + attempts@.take(j as int),
            decreases attempts.len() - j,
        {
            avoid.push(attempts[j].clone());
            assert(attempts@.take(j + 1) =~= attempts@.take(j as int).push(attempts@[j as int]));
            j = j + 1;
        }
        recommended_checks.push(m.experience.lesson.clone());
        proof {
            assert(attempts@.take(attempts@.len() as int) =~= attempts@);
            assert(checks_of(next) =~= checks_of(prefix).push(matches@[i as int].experience.lesson));
            assert(strategies_of(next) =~= candidate_strategies@);
        }
        i = i + 1;
    }
    proof {
        assert(matches@.take(matches@.len() as int) =~= matches@);
    }
    RecallResult { query, matches, candidate_strategies, avoid, recommended_checks }
}

} // verus!
