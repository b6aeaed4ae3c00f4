//! The agent-readable documents a memory writes: `LOOP.md` and the
//! per-experience trajectory notes.

use vstd::prelude::*;
use crate::model::{
    outcome_label, result_label, source_label, task_type_label, EngineeringExperience,
};
use crate::text::{join, joined, views};

verus! {

/// A list for display: the values separated by commas, or `none`.
pub open spec fn csv_or_none_of(values: Seq<String>) -> Seq<char> {
    if values.len() == 0 {
        "none"@
    } else {
        joined(views(values), ", "@)
    }
}

/// Writes a list for display: the values separated by commas, or `none`.
pub fn csv_or_none(values: &Vec<String>) -> (r: String)
    ensures
        r@ == csv_or_none_of(values@),
{
    if values.len() == 0 {
        String::from_str("none")
    } else {
        join(values, ", ")
    }
}

/// Writes a list for the terminal: the values separated by commas, or `none`.
pub fn display_list(values: &Vec<String>) -> (r: String)
    ensures
        r@ == csv_or_none_of(values@),
{
    csv_or_none(values)
}

/// The `LOOP.md` of a memory with nothing recorded yet.
pub fn empty_loop_doc() -> (r: &'static str)
    ensures
        r@ == "# LOOP.md\n\nNo engineering experiences recorded yet.\n"@,
{
    "# LOOP.md\n\nNo engineering experiences recorded yet.\n"
}

/// A labelled line for a detail that may be absent.
pub open spec fn detail_line(label: Seq<char>, o: Option<String>) -> Seq<char> {
    match o {
        Some(s) => label + s@ + "\n"@,
        None => Seq::empty(),
    }
}

/// One line per item, each after the same label.
pub open spec fn item_lines(label: Seq<char>, items: Seq<String>) -> Seq<char>
    decreases items.len(),
{
    if items.len() == 0 {
        Seq::empty()
    } else {
        item_lines(label, items.drop_last()) + label + items.last()@ + "\n"@
    }
}

fn push_detail(out: &mut String, label: &str, o: &Option<String>)
    ensures
        final(out)@ == old(out)@ + detail_line(label@, *o),
{
    match o {
        Some(s) => {
            out.append(label);
            out.append(s.as_str());
            out.append("\n");
        },
        None => {},
    }
}

pub(crate) fn push_items(out: &mut String, label: &str, items: &Vec<String>)
    ensures
        final(out)@ == old(out)@ + item_lines(label@, items@),
{
    let ghost start = out@;
    let mut i: usize = 0;
    while i < items.len()
        invariant
            i <= items@.len(),
            out@ == start + item_lines(label@, items@.take(i as int)),
        decreases items.len() - i,
    {
        out.append(label);
        out.append(items[i].as_str());
        out.append("\n");
        proof {
            assert(items@.take(i + 1).drop_last() =~= items@.take(i as int));
        }
        i = i + 1;
    }
    assert(items@.take(items@.len() as int) =~= items@);
}

/// `true` or `false`, as `Display` writes a boolean.
pub open spec fn bool_text(b: bool) -> Seq<char> {
    if b { "true"@ } else { "false"@ }
}

fn bool_word(b: bool) -> (r: &'static str)
    ensures
        r@ == bool_text(b),
{
    if b { "true" } else { "false" }
}

/// The head of an experience's section: title, outcome, hypothesis, context.
pub open spec fn section_head(e: EngineeringExperience) -> Seq<char> {
    "## "@ + e.id@ + " - "@ + e.task.summary@ + "\n\n"@
        + "Outcome: "@ + outcome_label(e.outcome) + " at "@ + e.verified_at.text() + "\n\n"@
        + match e.task.hypothesis {
            Some(h) => "Context/hypothesis: "@ + h@ + "\n\n"@,
            None => Seq::empty(),
        }
        + "Project context: "@ + e.context.name@ + " | languages: "@ + csv_or_none_of(e.context.languages@)
        + " | frameworks: "@ + csv_or_none_of(e.context.frameworks@) + "\n\n"@
}

/// The verifier details of an experience's section, each on its own line when present.
pub open spec fn section_details(e: EngineeringExperience) -> Seq<char> {
    detail_line("- Command: "@, e.verification.command)
        + detail_line("- Reference: "@, e.verification.reference)
        + detail_line("- Run: "@, e.verification.run_id)
        + detail_line("- Target URL: "@, e.verification.target_url)
        + detail_line("- Commit: "@, e.evidence.commit_sha)
        + detail_line("- Branch: "@, e.evidence.branch)
        + detail_line("- Agent: "@, e.evidence.agent)
}

/// The verification part of an experience's section.
pub open spec fn section_verification(e: EngineeringExperience) -> Seq<char> {
    "Verification:\n"@
        + "- Source: "@ + source_label(e.verification.source) + "\n"@
        + "- Result: "@ + result_label(e.verification.result) + "\n"@
        + section_details(e)
        + (if e.evidence.files_changed@.len() == 0 {
            Seq::empty()
        } else {
            "- Files changed:\n"@ + item_lines("  - "@, e.evidence.files_changed@)
        })
        + "\n"@
}

/// The closing part of an experience's section: attempts to avoid, decision,
/// lesson, scope and confidence.
pub open spec fn section_tail(e: EngineeringExperience, confidence: Seq<char>) -> Seq<char> {
    "Failed attempts to avoid:\n"@
        + (if e.trajectory.failed_attempts@.len() == 0 {
            "- None recorded\n"@
        } else {
            item_lines("- "@, e.trajectory.failed_attempts@)
        })
        + "\nSuccessful decision: "@ + e.trajectory.successful_decision@
        + "\n\nLesson: "@ + e.lesson@
        + "\n\nScope: project="@ + bool_text(e.scope.project)
        + " stack="@ + bool_text(e.scope.stack)
        + " global="@ + bool_text(e.scope.global)
        + "\n\nConfidence: "@ + confidence + "\n\n"@
}

/// An experience's section of `LOOP.md`; `confidence` is its confidence as
/// written with two decimals.
pub open spec fn loop_section(e: EngineeringExperience, confidence: Seq<char>) -> Seq<char> {
    section_head(e) + section_verification(e) + section_tail(e, confidence)
}

fn write_head(out: &mut String, e: &EngineeringExperience)
    ensures
        final(out)@ == old(out)@ + section_head(*e),
{
    let ghost start = out@;
    out.append("## ");
    out.append(e.id.as_str());
    out.append(" - ");
    out.append(e.task.summary.as_str());
    out.append("\n\n");
    out.append("Outcome: ");
    out.append(e.outcome.label());
    out.append(" at ");
    out.append(e.verified_at.rfc3339().as_str());
    out.append("\n\n");
    match &e.task.hypothesis {
        Some(h) => {
            out.append("Context/hypothesis: ");
            out.append(h.as_str());
            out.append("\n\n");
        },
        None => {},
    }
    out.append("Project context: ");
    out.append(e.context.name.as_str());
    out.append(" | languages: ");
    out.append(csv_or_none(&e.context.languages).as_str());
    out.append(" | frameworks: ");
    out.append(csv_or_none(&e.context.frameworks).as_str());
    out.append("\n\n");
    assert(out@ =~= start + section_head(*e));
}

fn write_details(out: &mut String, e: &EngineeringExperience)
    ensures
        final(out)@ == old(out)@ + section_details(*e),
{
    let ghost start = out@;
    push_detail(out, "- Command: ", &e.verification.command);
    push_detail(out, "- Reference: ", &e.verification.reference);
    push_detail(out, "- Run: ", &e.verification.run_id);
    push_detail(out, "- Target URL: ", &e.verification.target_url);
    push_detail(out, "- Commit: ", &e.evidence.commit_sha);
    push_detail(out, "- Branch: ", &e.evidence.branch);
    push_detail(out, "- Agent: ", &e.evidence.agent);
    assert(out@ =~= start + section_details(*e));
}

#[verifier::rlimit(60)]
fn write_verification(out: &mut String, e: &EngineeringExperience)
    ensures
        final(out)@ == old(out)@ + section_verification(*e),
{
    let ghost start = out@;
    out.append("Verification:\n");
    out.append("- Source: ");
    out.append(e.verification.source.label());
    out.append("\n");
    out.append("- Result: ");
    out.append(e.verification.result.label());
    out.append("\n");
    write_details(out, e);
    if e.evidence.files_changed.len() > 0 {
        out.append("- Files changed:\n");
        push_items(out, "  - ", &e.evidence.files_changed);
    }
    out.append("\n");
    assert(out@ =~= start + section_verification(*e));
}

fn write_attempts(out: &mut String, e: &EngineeringExperience)
    ensures
        final(out)@ == old(out)@ + "Failed attempts to avoid:\n"@ + (if e.trajectory.failed_attempts@.len() == 0 {
            "- None recorded\n"@
        } else {
            item_lines("- "@, e.trajectory.failed_attempts@)
        }),
{
    out.append("Failed attempts to avoid:\n");
    if e.trajectory.failed_attempts.len() == 0 {
        out.append("- None recorded\n");
    } else {
        push_items(out, "- ", &e.trajectory.failed_attempts);
    }
}

#[verifier::rlimit(60)]
fn write_tail(out: &mut String, e: &EngineeringExperience, confidence: &str)
    ensures
        final(out)@ == old(out)@ + section_tail(*e, confidence@),
{
    let ghost start = out@;
    write_attempts(out, e);
    out.append("\nSuccessful decision: ");
    out.append(e.trajectory.successful_decision.as_str());
    out.append("\n\nLesson: ");
    out.append(e.lesson.as_str());
    out.append("\n\nScope: project=");
    out.append(bool_word(e.scope.project));
    out.append(" stack=");
    out.append(bool_word(e.scope.stack));
    out.append(" global=");
    out.append(bool_word(e.scope.global));
    out.append("\n\nConfidence: ");
    out.append(confidence);
    out.append("\n\n");
    assert(out@ =~= start + section_tail(*e, confidence@));
}

/// The sections of all experiences, in order.
pub open spec fn loop_sections(es: Seq<EngineeringExperience>, confidences: Seq<String>) -> Seq<char>
    decreases es.len(),
{
    if es.len() == 0 {
        Seq::empty()
    } else {
        loop_sections(es.drop_last(), confidences.drop_last()) + loop_section(es.last(), confidences.last()@)
    }
}

/// The `LOOP.md` of a memory holding these experiences.
pub open spec fn loop_doc(es: Seq<EngineeringExperience>, confidences: Seq<String>) -> Seq<char> {
    "# LOOP.md\n\nEngineering experience memory generated by LoopLens.\n\n"@ + if es.len() == 0 {
        "No engineering experiences recorded yet.\n"@
    } else {
        loop_sections(es, confidences)
    }
}

fn write_section(out: &mut String, e: &EngineeringExperience, confidence: &str)
    ensures
        final(out)@ == old(out)@ + loop_section(*e, confidence@),
{
    let ghost start = out@;
    write_head(out, e);
    write_verification(out, e);
    write_tail(out, e, confidence);
    assert(out@ =~= start + loop_section(*e, confidence@));
}

proof fn lemma_sections_step(es: Seq<EngineeringExperience>, cs: Seq<String>, i: int)
    requires
        0 <= i < es.len(),
        cs.len() == es.len(),
    ensures
        loop_sections(es.take(i + 1), cs.take(i + 1)) == loop_sections(es.take(i), cs.take(i)) + loop_section(es[i], cs[i]@),
{
    assert(es.take(i + 1).drop_last() =~= es.take(i));
    assert(cs.take(i + 1).drop_last() =~= cs.take(i));
}

/// Writes `LOOP.md` for the experiences, in the order given; `confidences[i]`
/// is the confidence of `experiences[i]` written with two decimals.
pub fn render_loop_doc(experiences: &Vec<EngineeringExperience>, confidences: &Vec<String>) -> (r: String)
    requires
        confidences@.len() == experiences@.len(),
    ensures
        r@ == loop_doc(experiences@, confidences@),
{
    let mut out = String::from_str("# LOOP.md\n\nEngineering experience memory generated by LoopLens.\n\n");
    if experiences.len() == 0 {
        out.append("No engineering experiences recorded yet.\n");
        return out;
    }
    let ghost start = out@;
    let mut i: usize = 0;
    while i < experiences.len()
        invariant
            i <= experiences@.len(),
            confidences@.len() == experiences@.len(),
            out@ == start + loop_sections(experiences@.take(i as int), confidences@.take(i as int)),
        decreases experiences.len() - i,
    {
        write_section(&mut out, &experiences[i], confidences[i].as_str());
        proof {
            lemma_sections_step(experiences@, confidences@, i as int);
        }
        i = i + 1;
    }
    proof {
        assert(experiences@.take(experiences@.len() as int) =~= experiences@);
        assert(confidences@.take(confidences@.len() as int) =~= confidences@);
    }
    out
}


/// A line for a detail that may be absent: none when it is.
pub open spec fn optional_line(label: Seq<char>, o: Option<String>) -> Seq<Seq<char>> {
    match o {
        Some(s) => seq![label + s@],
        None => Seq::empty(),
    }
}

/// The lines of an experience's trajectory note.
pub open spec fn trajectory_lines(e: EngineeringExperience) -> Seq<Seq<char>> {
    seq![
        "# "@ + e.id@ + " Trajectory"@,
        Seq::empty(),
        "Task: "@ + e.task.summary@,
        "Type: "@ + task_type_label(e.task.task_type),
        "Outcome: "@ + outcome_label(e.outcome) + " at "@ + e.verified_at.text(),
        Seq::empty(),
    ] + optional_line("Verification command: "@, e.verification.command)
        + optional_line("Verification reference: "@, e.verification.reference)
        + optional_line("Verification run: "@, e.verification.run_id)
        + optional_line("Target URL: "@, e.verification.target_url)
        + optional_line("Commit: "@, e.evidence.commit_sha)
        + optional_line("Branch: "@, e.evidence.branch)
        + optional_line("Agent: "@, e.evidence.agent)
        + (if e.evidence.files_changed@.len() == 0 {
            Seq::empty()
        } else {
            seq!["Files changed: "@ + joined(views(e.evidence.files_changed@), ", "@)]
        })
        + seq![Seq::<char>::empty()]
        + e.trajectory.failed_attempts@.map_values(|a: String| "- FAILED: "@ + a@)
        + (if e.trajectory.successful_decision@.len() == 0 {
            Seq::empty()
        } else {
            seq!["- SUCCESS: "@ + e.trajectory.successful_decision@]
        })
}

/// The trajectory note of an experience: its lines joined by newlines.
pub open spec fn trajectory_doc_of(e: EngineeringExperience) -> Seq<char> {
    joined(trajectory_lines(e), "\n"@)
}

fn push_line(lines: &mut Vec<String>, line: String)
    ensures
        views(final(lines)@) == views(old(lines)@).push(line@),
{
    lines.push(line);
    assert(views(lines@) =~= views(old(lines)@).push(line@));
}

fn labelled_line(label: &str, text: &str) -> (r: String)
    ensures
        r@ == label@ + text@,
{
    let mut line = String::from_str(label);
    line.append(text);
    line
}

fn push_optional(lines: &mut Vec<String>, label: &str, o: &Option<String>)
    ensures
        views(final(lines)@) == views(old(lines)@) + optional_line(label@, *o),
{
    match o {
        Some(s) => {
            push_line(lines, labelled_line(label, s.as_str()));
            assert(views(lines@) =~= views(old(lines)@) + optional_line(label@, *o));
        },
        None => {
            assert(views(lines@) =~= views(old(lines)@) + optional_line(label@, *o));
        },
    }
}

/// Writes the trajectory note of an experience.
#[verifier::rlimit(60)]
pub fn trajectory_doc(e: &EngineeringExperience) -> (r: String)
    ensures
        r@ == trajectory_doc_of(*e),
{
    let mut lines: Vec<String> = Vec::new();
    let mut title = String::from_str("# ");
    title.append(e.id.as_str());
    title.append(" Trajectory");
    push_line(&mut lines, title);
    push_line(&mut lines, String::new());
    push_line(&mut lines, labelled_line("Task: ", e.task.summary.as_str()));
    push_line(&mut lines, labelled_line("Type: ", e.task.task_type.label()));
    let mut outcome = labelled_line("Outcome: ", e.outcome.label());
    outcome.append(" at ");
    outcome.append(e.verified_at.rfc3339().as_str());
    push_line(&mut lines, outcome);
    push_line(&mut lines, String::new());
    push_optional(&mut lines, "Verification command: ", &e.verification.command);
    push_optional(&mut lines, "Verification reference: ", &e.verification.reference);
    push_optional(&mut lines, "Verification run: ", &e.verification.run_id);
    push_optional(&mut lines, "Target URL: ", &e.verification.target_url);
    push_optional(&mut lines, "Commit: ", &e.evidence.commit_sha);
    push_optional(&mut lines, "Branch: ", &e.evidence.branch);
    push_optional(&mut lines, "Agent: ", &e.evidence.agent);
    if e.evidence.files_changed.len() > 0 {
        push_line(&mut lines, labelled_line("Files changed: ", join(&e.evidence.files_changed, ", ").as_str()));
    }
    push_line(&mut lines, String::new());
    let ghost before_attempts = views(lines@);
    let attempts = &e.trajectory.failed_attempts;
    let mut i: usize = 0;
    while i < attempts.len()
        invariant
            i <= attempts@.len(),
            views(lines@) == before_attempts + attempts@.take(i as int).map_values(|a: String| "- FAILED: "@ + a@),
        decreases attempts.len() - i,
    {
        push_line(&mut lines, labelled_line("- FAILED: ", attempts[i].as_str()));
        proof {
            assert(attempts@.take(i + 1).map_values(|a: String| "- FAILED: "@ + a@) =~= attempts@.take(i as int).map_values(
                |a: String| "- FAILED: "@ + a@,
            ).push("- FAILED: "@ + attempts@[i as int]@));
        }
        i = i + 1;
    }
    proof {
        assert(attempts@.take(attempts@.len() as int) =~= attempts@);
    }
    if !e.trajectory.successful_decision.as_str().is_empty() {
        push_line(&mut lines, labelled_line("- SUCCESS: ", e.trajectory.successful_decision.as_str()));
    }
    assert(views(lines@) =~= trajectory_lines(*e));
    join(&lines, "\n")
}

} // verus!
