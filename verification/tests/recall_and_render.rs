use looplens::engine::LoopLensEngine;
use looplens::model::{
    CodeEvidence, Confidence, EngineeringExperience, ExperienceOutcome, LearnInput, MemoryScope,
    ProjectContext, RecallInput, TaskType, VerificationEvidence,
};
use looplens::recall::{
    collect_candidates, document_frequency, overlap_terms, rank_matches, recall_reasons,
    score_rank_key, summarize_recall, RecallMatch, RecallQuery,
};
use looplens::report::{recall_report, ScoreLabels};
use looplens::render::{csv_or_none, display_list, empty_loop_doc, render_loop_doc, trajectory_doc};
use looplens::time::Timestamp;
use looplens::tokens::tokenize;

fn strings(items: &[&str]) -> Vec<String> {
    items.iter().map(|s| s.to_string()).collect()
}

fn learned(n: usize, task: &str, decision: &str, lesson: &str, files: &[&str]) -> EngineeringExperience {
    let engine = LoopLensEngine::new("/repo".to_string());
    engine
        .learn(
            LearnInput {
                task: task.into(),
                task_type: TaskType::Bugfix,
                hypothesis: None,
                failed_attempts: strings(&[&format!("{decision} too early")]),
                successful_decision: decision.into(),
                files: strings(files),
                lesson: lesson.into(),
                verification: VerificationEvidence::default(),
                evidence: CodeEvidence::default(),
                scope: MemoryScope::default(),
                confidence: Confidence { bits: 0.9f32.to_bits() },
            },
            n - 1,
            ProjectContext::default(),
            Timestamp::from_parts(1767323045, 0).unwrap(),
        )
        .unwrap()
}

fn query(task: &str, files: &[&str], languages: &[&str]) -> RecallQuery {
    RecallQuery::from_input(&RecallInput {
        task: task.into(),
        task_type: None,
        files: strings(files),
        languages: strings(languages),
        frameworks: vec![],
        top_k: 3,
    })
}

fn keyed(mut m: RecallMatch, key: i64) -> RecallMatch {
    m.rank_key = key;
    m
}

#[test]
fn tokenizes_into_sorted_lowercase_terms() {
    assert_eq!(
        tokenize("Fix the Auth-State bug, ok? Fix!"),
        strings(&["auth", "bug", "fix", "state", "the"])
    );
    assert_eq!(tokenize("é éé ab"), strings(&["éé"]));
    assert_eq!(tokenize("ÜBER straße"), strings(&["straße", "über"]));
    assert_eq!(tokenize("app/login/page.tsx"), strings(&["app", "login", "page", "tsx"]));
    assert_eq!(tokenize(""), strings(&[]));
    assert_eq!(tokenize("a1b2 x_y"), strings(&["a1b2"]));
}

#[test]
fn overlap_is_the_sorted_intersection() {
    let left = strings(&["zeta", "auth", "login"]);
    let right = strings(&["login", "page", "auth"]);
    assert_eq!(overlap_terms(&left, &right), strings(&["auth", "login"]));
    assert_eq!(overlap_terms(&left, &strings(&[])), strings(&[]));
}

#[test]
fn counts_documents_per_term() {
    let es = vec![
        learned(1, "login page broken", "fix login", "check login", &[]),
        learned(2, "billing page slow", "cache billing", "profile first", &[]),
    ];
    let table = document_frequency(&es);
    let count = |t: &str| table.iter().find(|c| c.term == t).map(|c| c.documents);
    assert_eq!(count("page"), Some(2));
    assert_eq!(count("login"), Some(1));
    assert_eq!(count("billing"), Some(1));
    assert_eq!(count("nowhere"), None);
    let mut terms: Vec<&str> = table.iter().map(|c| c.term.as_str()).collect();
    let before = terms.len();
    terms.sort();
    terms.dedup();
    assert_eq!(terms.len(), before);
}

#[test]
fn candidates_are_the_experiences_sharing_a_term() {
    let es = vec![
        learned(1, "login page broken", "fix login", "check login", &["app/login.tsx"]),
        learned(2, "billing export slow", "cache billing", "profile first", &["billing.rs"]),
        learned(3, "page title wrong", "set title", "check page", &[]),
    ];
    let q = query("login page", &[], &[]);
    let candidates = collect_candidates(&q, es);
    let ids: Vec<&str> = candidates.iter().map(|m| m.experience.id.as_str()).collect();
    assert_eq!(ids, vec!["EXP-001", "EXP-003"]);
    assert_eq!(candidates[0].matched_terms, strings(&["login", "page"]));
    assert_eq!(candidates[0].term_weights, vec![1, 2]);
    assert_eq!(candidates[1].matched_terms, strings(&["page"]));
    assert_eq!(candidates[1].term_weights, vec![2]);
    assert_eq!(
        candidates[0].reason,
        strings(&["task overlap: login, page", "verified successful outcome"])
    );
    assert!(candidates.iter().all(|m| m.rank_key == 0));
}

#[test]
fn stack_and_file_terms_also_match() {
    let es = vec![learned(1, "unrelated words", "other", "else", &["src/render.rs"])];
    let q = query("nothing shared", &["src/render.rs"], &["rust"]);
    let candidates = collect_candidates(&q, es);
    assert_eq!(candidates.len(), 1);
    assert_eq!(candidates[0].matched_terms, strings(&[]));
    assert_eq!(candidates[0].matched_context_terms, strings(&["rust"]));
    assert_eq!(candidates[0].matched_file_terms, strings(&["render", "src"]));
    assert_eq!(
        candidates[0].reason,
        strings(&[
            "stack overlap: rust",
            "file/path overlap: render, src",
            "verified successful outcome"
        ])
    );
}

#[test]
fn ranks_larger_keys_first_keeping_ties_in_order() {
    let es = vec![
        learned(1, "alpha job", "a", "la", &[]),
        learned(2, "alpha job", "b", "lb", &[]),
        learned(3, "alpha job", "c", "lc", &[]),
        learned(4, "alpha job", "d", "ld", &[]),
    ];
    let mut c = collect_candidates(&query("alpha", &[], &[]), es).into_iter();
    let input = vec![
        keyed(c.next().unwrap(), 5),
        keyed(c.next().unwrap(), 9),
        keyed(c.next().unwrap(), 5),
        keyed(c.next().unwrap(), -3),
    ];
    let ranked = rank_matches(input);
    let ids: Vec<&str> = ranked.iter().map(|m| m.experience.id.as_str()).collect();
    assert_eq!(ids, vec!["EXP-002", "EXP-001", "EXP-003", "EXP-004"]);
    assert!(ranked.windows(2).all(|w| w[0].rank_key >= w[1].rank_key));
}

#[test]
fn summarizes_the_best_matches() {
    let es = vec![
        learned(1, "deploy fails", "roll back", "check env", &[]),
        learned(2, "deploy slow", "cache layers", "measure first", &[]),
        learned(3, "deploy flaky", "retry once", "read logs", &[]),
    ];
    let mut ms = collect_candidates(&query("deploy", &[], &[]), es);
    ms[1].experience.outcome = ExperienceOutcome::VerifiedFailure;
    let ranked = rank_matches(ms);

    let r = summarize_recall("deploy".into(), ranked.clone(), 2);
    assert_eq!(r.query, "deploy");
    assert_eq!(r.matches.len(), 2);
    assert_eq!(r.candidate_strategies, strings(&["roll back"]));
    assert_eq!(r.avoid, strings(&["roll back too early", "cache layers too early"]));
    assert_eq!(r.recommended_checks, strings(&["check env", "measure first"]));

    let one = summarize_recall("deploy".into(), ranked.clone(), 0);
    assert_eq!(one.matches.len(), 1);
    let all = summarize_recall("deploy".into(), ranked, 10);
    assert_eq!(all.matches.len(), 3);
    assert_eq!(all.candidate_strategies, strings(&["roll back", "retry once"]));
    let none = summarize_recall("deploy".into(), vec![], 3);
    assert!(none.matches.is_empty() && none.candidate_strategies.is_empty());
}

#[test]
fn explains_matches() {
    let mut e = learned(1, "t", "d", "l", &[]);
    e.outcome = ExperienceOutcome::Unverified;
    assert_eq!(
        recall_reasons(&strings(&["a", "b"]), &strings(&[]), &strings(&["c"]), &e),
        strings(&["task overlap: a, b", "file/path overlap: c"])
    );
}

#[test]
fn renders_lists_and_empty_memory() {
    assert_eq!(csv_or_none(&strings(&[])), "none");
    assert_eq!(csv_or_none(&strings(&["rust", "ts"])), "rust, ts");
    assert_eq!(display_list(&strings(&["one"])), "one");
    assert_eq!(empty_loop_doc(), "# LOOP.md\n\nNo engineering experiences recorded yet.\n");
    assert_eq!(
        render_loop_doc(&vec![], &vec![]),
        "# LOOP.md\n\nEngineering experience memory generated by LoopLens.\n\nNo engineering experiences recorded yet.\n"
    );
}

#[test]
fn renders_an_experience_section() {
    let mut e = learned(1, "Login broken", "Fix auth", "Check auth first.", &["app/login.tsx"]);
    e.task.hypothesis = Some("auth race".into());
    e.verification.command = Some("npm test".into());
    e.evidence.branch = Some("main".into());
    let doc = render_loop_doc(&vec![e], &strings(&["0.90"]));
    let expected = "# LOOP.md\n\nEngineering experience memory generated by LoopLens.\n\n\
## EXP-001 - Login broken\n\n\
Outcome: VerifiedSuccess at 2026-01-02T03:04:05+00:00\n\n\
Context/hypothesis: auth race\n\n\
Project context: LoopLens project | languages: rust | frameworks: none\n\n\
Verification:\n\
- Source: Unspecified\n\
- Result: Passed\n\
- Command: npm test\n\
- Branch: main\n\
- Files changed:\n\
\x20\x20- app/login.tsx\n\
\n\
Failed attempts to avoid:\n\
- Fix auth too early\n\
\nSuccessful decision: Fix auth\n\nLesson: Check auth first.\n\n\
Scope: project=true stack=true global=false\n\nConfidence: 0.90\n\n";
    assert_eq!(doc, expected);
}

#[test]
fn renders_a_trajectory_note() {
    let mut e = learned(7, "Flaky deploy", "Pin image", "Pin early.", &["Dockerfile"]);
    e.verification.run_id = Some("run-1".into());
    let note = trajectory_doc(&e);
    assert_eq!(
        note,
        "# EXP-007 Trajectory\n\nTask: Flaky deploy\nType: Bugfix\n\
Outcome: VerifiedSuccess at 2026-01-02T03:04:05+00:00\n\n\
Verification run: run-1\nFiles changed: Dockerfile\n\n\
- FAILED: Pin image too early\n- SUCCESS: Pin image"
    );
}

fn labels(total: &str) -> ScoreLabels {
    ScoreLabels {
        total: total.into(),
        task: "0.50".into(),
        stack: "1.00".into(),
        file: "0.00".into(),
        confidence: "0.90".into(),
        recency: "1.00".into(),
        scope: "0.80".into(),
    }
}

#[test]
fn reports_a_recall() {
    let es = vec![learned(1, "login page broken", "fix login", "check login", &[])];
    let ranked = rank_matches(collect_candidates(&query("login", &[], &["rust"]), es));
    let result = summarize_recall("  login  ".into(), ranked, 3);
    let report = recall_report(&result, &vec![labels("0.612")]);
    assert_eq!(
        report,
        "# LoopLens Engineering Context\n\nQuery: login\n\n## Relevant Experience\n\
- EXP-001 score 0.612: login page broken\n\
\x20 matched terms: login\n\
\x20 stack overlap: rust\n\
\x20 why: task overlap: login; stack overlap: rust; verified successful outcome\n\
\x20 score breakdown: task 0.50, stack 1.00, file 0.00, confidence 0.90, recency 1.00, scope 0.80\n\
\x20 previous decision: fix login\n\
\x20 lesson learned: check login\n\
\n## Candidate Strategies\n- fix login\n\
\n## Avoid\n- fix login too early\n\
\n## Recommended Checks\n- check login\n"
    );
    let empty = summarize_recall("nothing".into(), vec![], 3);
    assert_eq!(
        recall_report(&empty, &vec![]),
        "# LoopLens Engineering Context\n\nQuery: nothing\n\nNo relevant engineering experience found yet.\n"
    );
}

fn reference_terms(text: &str) -> Vec<String> {
    let mut terms: Vec<String> = text
        .split(|ch: char| !ch.is_alphanumeric())
        .map(|piece| piece.trim().to_lowercase())
        .filter(|term| term.len() > 2)
        .collect();
    terms.sort();
    terms.dedup();
    terms
}

#[test]
fn tokenize_agrees_with_the_split_rule() {
    let samples = [
        "Login flow failed after auth state render",
        "Check auth-state rendering before modifying selectors.",
        "app/login/page.tsx app/login/page.tsx",
        "ÄÖÜ straße ΣΊΣΥΦΟΣ İstanbul ǅemal",
        "42 is 4242; x2 y22 z222",
        "  \t\n ",
        "日本語テキスト 中文 한국어",
        "emoji 🚀 rocket-launch 🚀🚀",
    ];
    for text in samples {
        assert_eq!(tokenize(text), reference_terms(text), "{text}");
    }
}

#[test]
fn recall_keeps_the_best_ranked_matches() {
    let es: Vec<EngineeringExperience> =
        (1..=5).map(|n| learned(n, "queue stalls", "drain queue", "watch depth", &[])).collect();
    let keys = [3i64, 8, -1, 8, 5];
    let candidates: Vec<RecallMatch> = collect_candidates(&query("queue", &[], &[]), es)
        .into_iter()
        .zip(keys)
        .map(|(m, k)| keyed(m, k))
        .collect();
    let ranked = rank_matches(candidates);
    let kept = summarize_recall("queue".into(), ranked.clone(), 2);
    let kept_ids: Vec<&str> = kept.matches.iter().map(|m| m.experience.id.as_str()).collect();
    assert_eq!(kept_ids, vec!["EXP-002", "EXP-004"]);
    let lowest_kept = kept.matches.iter().map(|m| m.rank_key).min().unwrap();
    assert!(ranked[2..].iter().all(|m| m.rank_key <= lowest_kept));
}

#[test]
fn ascii_terms_ignore_case() {
    for text in ["Fix the Auth-State BUG", "app/Login/Page.TSX v2", "ABC abc AbC 123x"] {
        let lowered = text.to_lowercase();
        assert_eq!(tokenize(text), tokenize(&lowered));
        for term in tokenize(text) {
            assert!(term.len() > 2);
            assert!(term.chars().all(|c| c.is_ascii_digit() || c.is_ascii_lowercase()));
        }
    }
}

#[test]
fn overlap_does_not_depend_on_order() {
    let a = tokenize("login page auth state render");
    let b = tokenize("render login button page");
    assert_eq!(overlap_terms(&a, &b), overlap_terms(&b, &a));
    assert_eq!(overlap_terms(&a, &a), a);
}

#[test]
fn score_keys_order_like_total_cmp() {
    let values = [
        f32::NEG_INFINITY, -1.5, -0.0, 0.0, 1.0e-40, 0.35, 0.9, 1.0, f32::INFINITY, f32::NAN, -f32::NAN,
    ];
    for x in values {
        for y in values {
            let keys = score_rank_key(x.to_bits()).cmp(&score_rank_key(y.to_bits()));
            assert_eq!(keys, x.total_cmp(&y), "{x} {y}");
        }
    }
}
