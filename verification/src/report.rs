//! The recall report as the command line prints it.

use vstd::prelude::*;
use crate::recall::{RecallMatch, RecallResult};
use crate::render::{item_lines, push_items};
use crate::text::{join, joined, trim, trimmed, views};

verus! {

/// The figures of one match as the report prints them: its score with three
/// decimals, and the parts of its score with two.
#[derive(Debug, Clone)]
pub struct ScoreLabels {
    pub total: String,
    pub task: String,
    pub stack: String,
    pub file: String,
    pub confidence: String,
    pub recency: String,
    pub scope: String,
}

/// A labelled line listing terms, when there are any.
pub open spec fn terms_line(label: Seq<char>, terms: Seq<String>, sep: Seq<char>) -> Seq<char> {
    if terms.len() == 0 {
        Seq::empty()
    } else {
        label + joined(views(terms), sep) + "\n"@
    }
}

/// The lines of one match: what it is and how it scored, what it shares with
/// the request and why, the decision it took and its lesson.
pub open spec fn match_lines(m: RecallMatch, l: ScoreLabels) -> Seq<char> {
    "- "@ + m.experience.id@ + " score "@ + l.total@ + ": "@ + m.experience.task.summary@ + "\n"@
        + terms_line("  matched terms: "@, m.matched_terms@, ", "@)
        + terms_line("  stack overlap: "@, m.matched_context_terms@, ", "@)
        + terms_line("  file/path overlap: "@, m.matched_file_terms@, ", "@)
        + terms_line("  why: "@, m.reason@, "; "@)
        + "  score breakdown: task "@ + l.task@ + ", stack "@ + l.stack@ + ", file "@ + l.file@
        + ", confidence "@ + l.confidence@ + ", recency "@ + l.recency@ + ", scope "@ + l.scope@ + "\n"@
        + "  previous decision: "@ + m.experience.trajectory.successful_decision@ + "\n"@
        + "  lesson learned: "@ + m.experience.lesson@ + "\n"@
}

/// The lines of all matches, in order.
pub open spec fn matches_lines(ms: Seq<RecallMatch>, ls: Seq<ScoreLabels>) -> Seq<char>
    decreases ms.len(),
{
    if ms.len() == 0 {
        Seq::empty()
    } else {
        matches_lines(ms.drop_last(), ls.drop_last()) + match_lines(ms.last(), ls.last())
    }
}

/// A titled list of items, when there are any.
pub open spec fn titled_items(title: Seq<char>, items: Seq<String>) -> Seq<char> {
    if items.len() == 0 {
        Seq::empty()
    } else {
        "\n"@ + title + item_lines("- "@, items)
    }
}

/// The report of a recall: the trimmed query, then either a note that nothing
/// relevant was found, or the matches, the strategies to reuse, the attempts
/// to avoid and the checks to run; `labels[i]` holds the figures of match `i`.
pub open spec fn recall_report_of(r: RecallResult, labels: Seq<ScoreLabels>) -> Seq<char> {
    "# LoopLens Engineering Context\n\nQuery: "@ + trimmed(r.query@) + "\n\n"@ + if r.matches@.len() == 0 {
        "No relevant engineering experience found yet.\n"@
    } else {
        "## Relevant Experience\n"@ + matches_lines(r.matches@, labels)
            + "\n## Candidate Strategies\n"@ + item_lines("- "@, r.candidate_strategies@)
            + titled_items("## Avoid\n"@, r.avoid@)
            + titled_items("## Recommended Checks\n"@, r.recommended_checks@)
    }
}

fn push_terms(out: &mut String, label: &str, terms: &Vec<String>, sep: &str)
    ensures
        final(out)@ == old(out)@ + terms_line(label@, terms@, sep@),
{
    if terms.len() > 0 {
        out.append(label);
        out.append(join(terms, sep).as_str());
        out.append("\n");
    }
}

fn push_titled(out: &mut String, title: &str, items: &Vec<String>)
    ensures
        final(out)@ == old(out)@ + titled_items(title@, items@),
{
    if items.len() > 0 {
        let ghost start = out@;
        out.append("\n");
        out.append(title);
        push_items(out, "- ", items);
        assert(out@ =~= start + titled_items(title@, items@));
    }
}

#[verifier::rlimit(60)]
fn write_match(out: &mut String, m: &RecallMatch, l: &ScoreLabels)
    ensures
        final(out)@ == old(out)@ + match_lines(*m, *l),
{
    let ghost start = out@;
    out.append("- ");
    out.append(m.experience.id.as_str());
    out.append(" score ");
    out.append(l.total.as_str());
    out.append(": ");
    out.append(m.experience.task.summary.as_str());
    out.append("\n");
    push_terms(out, "  matched terms: ", &m.matched_terms, ", ");
    push_terms(out, "  stack overlap: ", &m.matched_context_terms, ", ");
    push_terms(out, "  file/path overlap: ", &m.matched_file_terms, ", ");
    push_terms(out, "  why: ", &m.reason, "; ");
    out.append("  score breakdown: task ");
    out.append(l.task.as_str());
    out.append(", stack ");
    out.append(l.stack.as_str());
    out.append(", file ");
    out.append(l.file.as_str());
    out.append(", confidence ");
    out.append(l.confidence.as_str());
    out.append(", recency ");
    out.append(l.recency.as_str());
    out.append(", scope ");
    out.append(l.scope.as_str());
    out.append("\n");
    out.append("  previous decision: ");
    out.append(m.experience.trajectory.successful_decision.as_str());
    out.append("\n");
    out.append("  lesson learned: ");
    out.append(m.experience.lesson.as_str());
    out.append("\n");
    assert(out@ =~= start + match_lines(*m, *l));
}

/// Writes the report of a recall; `labels[i]` holds the figures of the
/// `i`-th match.
#[verifier::rlimit(60)]
pub fn recall_report(result: &RecallResult, labels: &Vec<ScoreLabels>) -> (r: String)
    requires
        labels@.len() == result.matches@.len(),
    ensures
        r@ == recall_report_of(*result, labels@),
{
    let mut out = String::from_str("# LoopLens Engineering Context\n\nQuery: ");
    out.append(trim(result.query.as_str()).as_str());
    out.append("\n\n");
    if result.matches.len() == 0 {
        out.append("No relevant engineering experience found yet.\n");
        assert(out@ =~= recall_report_of(*result, labels@));
        return out;
    }
    out.append("## Relevant Experience\n");
    let ghost start = out@;
    let mut i: usize = 0;
    while i < result.matches.len()
        invariant
            i <= result.matches@.len(),
            labels@.len() == result.matches@.len(),
            out@ == start + matches_lines(result.matches@.take(i as int), labels@.take(i as int)),
        decreases result.matches.len() - i,
    {
        write_match(&mut out, &result.matches[i], &labels[i]);
        proof {
            assert(result.matches@.take(i + 1).drop_last() =~= result.matches@.take(i as int));
            assert(labels@.take(i + 1).drop_last() =~= labels@.take(i as int));
        }
        i = i + 1;
    }
    proof {
        assert(result.matches@.take(result.matches@.len() as int) =~= result.matches@);
        assert(labels@.take(labels@.len() as int) =~= labels@);
    }
    out.append("\n## Candidate Strategies\n");
    push_items(&mut out, "- ", &result.candidate_strategies);
    push_titled(&mut out, "## Avoid\n", &result.avoid);
    push_titled(&mut out, "## Recommended Checks\n", &result.recommended_checks);
    assert(out@ =~= recall_report_of(*result, labels@));
    out
}

} // verus!
