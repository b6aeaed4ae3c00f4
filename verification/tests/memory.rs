use looplens::engine::{LayoutEntry, LayoutPresence, LoopLensEngine};
use looplens::experience::{MemoryError, StoredRecord, LegacyVerificationStatus};
use looplens::model::{
    CodeEvidence, Confidence, EngineeringExperience, ExperienceOutcome, LearnInput, MemoryScope,
    ProjectContext, RecallInput, TaskType, TrajectorySummary, VerificationEvidence,
    VerificationResult, VerificationSource,
};
use looplens::recall::{collect_candidates, rank_matches, summarize_recall, RecallQuery};
use looplens::render::render_loop_doc;
use looplens::time::Timestamp;

fn instant() -> Timestamp {
    Timestamp::from_parts(1767323045, 0).unwrap()
}

fn confidence(value: f32) -> Confidence {
    Confidence { bits: value.to_bits() }
}

fn confidence_label(e: &EngineeringExperience) -> String {
    format!("{:.2}", f32::from_bits(e.confidence.bits))
}

#[test]
fn recalls_similar_verified_experience() {
    let engine = LoopLensEngine::new("/tmp/looplens-memory".to_string());
    let experience = engine
        .learn(
            LearnInput {
                task: "Login flow failed after auth state render".into(),
                task_type: TaskType::Bugfix,
                hypothesis: Some("Missing login button".into()),
                failed_attempts: vec!["Changed selector".into()],
                successful_decision: "Fix auth state rendering".into(),
                files: vec!["app/login/page.tsx".into()],
                lesson: "Check auth-state rendering before modifying selectors.".into(),
                verification: VerificationEvidence {
                    source: VerificationSource::Custom,
                    result: VerificationResult::Passed,
                    run_id: Some("run_123".into()),
                    target_url: Some("https://example.com".into()),
                    files_changed: vec!["app/login/page.tsx".into()],
                    ..VerificationEvidence::default()
                },
                evidence: CodeEvidence {
                    files_changed: vec!["app/login/page.tsx".into()],
                    ..CodeEvidence::default()
                },
                scope: MemoryScope::default(),
                confidence: confidence(0.94),
            },
            0,
            ProjectContext::default(),
            instant(),
        )
        .unwrap();

    let input = RecallInput {
        task: "auth login button missing".into(),
        task_type: Some(TaskType::Bugfix),
        files: vec!["app/login/page.tsx".into()],
        languages: vec!["rust".into()],
        frameworks: vec![],
        top_k: 3,
    };
    let query = RecallQuery::from_input(&input);
    let candidates = collect_candidates(&query, vec![experience]);
    let recall = summarize_recall(input.task.clone(), rank_matches(candidates), input.top_k);

    assert_eq!(recall.matches.len(), 1);
    assert_eq!(recall.matches[0].experience.id, "EXP-001");
    assert!(recall.matches[0].matched_terms.contains(&"login".to_string()));
    assert!(recall.matches[0].matched_file_terms.contains(&"login".to_string()));
    assert!(f32::from_bits(recall.matches[0].experience.confidence.bits) > 0.9);
    assert_eq!(recall.matches[0].experience.outcome, ExperienceOutcome::VerifiedSuccess);
}

fn legacy_record() -> StoredRecord {
    StoredRecord {
        id: "EXP-001".into(),
        created_at: instant(),
        verified_at: None,
        task: None,
        problem: Some("Legacy repair record".into()),
        task_type: None,
        context: None,
        hypothesis: Some("Missing login button".into()),
        trajectory: None,
        trajectory_summary: Some(TrajectorySummary {
            failed_attempts: vec!["Tried the old route first".into()],
            successful_decision: "Keep loading old experience files".into(),
        }),
        patches: vec!["packages/core/src/lib.rs".into()],
        lesson: "Default newly-added verification metadata when absent.".into(),
        verification: None,
        verified: Some(LegacyVerificationStatus::Pass),
        outcome: None,
        evidence: None,
        scope: MemoryScope::default(),
        confidence: confidence(0.82),
    }
}

#[test]
fn loads_legacy_experience_shape() {
    let loaded = vec![EngineeringExperience::from_record(legacy_record())];
    assert_eq!(loaded.len(), 1);
    assert_eq!(loaded[0].task.summary, "Legacy repair record");
    assert_eq!(loaded[0].verification.source, VerificationSource::Custom);
    assert_eq!(loaded[0].verification.result, VerificationResult::Passed);
    assert_eq!(loaded[0].outcome, ExperienceOutcome::VerifiedSuccess);
    assert_eq!(loaded[0].verified_at.seconds(), loaded[0].created_at.seconds());
    assert_eq!(loaded[0].verified_at.nanos(), loaded[0].created_at.nanos());

    let labels: Vec<String> = loaded.iter().map(confidence_label).collect();
    let exported = render_loop_doc(&loaded, &labels);
    assert!(exported.contains("Engineering experience memory"));
    assert!(exported.contains("Legacy repair record"));
}

#[test]
fn init_creates_v2_memory_layout() {
    let root = "/tmp/looplens-layout";
    let engine = LoopLensEngine::new(root.to_string());
    let nothing = LayoutPresence {
        memory_dir: false,
        experiences_dir: false,
        trajectories_dir: false,
        project_file: false,
        config_file: false,
        loop_file: false,
    };
    let plan = engine.init_plan(&nothing);
    let result = engine.init_result(&plan);
    let created: Vec<&str> = result.created.iter().map(|p| p.as_str()).collect();

    assert!(created.contains(&"/tmp/looplens-layout/.looplens/project.toml"));
    assert!(created.contains(&"/tmp/looplens-layout/.looplens/config.toml"));
    assert!(created.contains(&"/tmp/looplens-layout/.looplens/experiences"));
    assert!(created.contains(&"/tmp/looplens-layout/.looplens/trajectories"));
    assert!(created.contains(&"/tmp/looplens-layout/.looplens/LOOP.md"));
    assert_eq!(result.root, "/tmp/looplens-layout/.looplens");
    assert_eq!(
        plan,
        vec![
            LayoutEntry::MemoryDir,
            LayoutEntry::ExperiencesDir,
            LayoutEntry::TrajectoriesDir,
            LayoutEntry::ProjectFile,
            LayoutEntry::ConfigFile,
            LayoutEntry::LoopFile,
        ]
    );
}

#[test]
fn rejects_invalid_confidence() {
    let engine = LoopLensEngine::new(".".to_string());
    let result = engine.learn(
        LearnInput {
            task: "Confidence must be bounded".into(),
            task_type: TaskType::Testing,
            hypothesis: None,
            failed_attempts: vec![],
            successful_decision: "Reject invalid confidence".into(),
            files: vec![],
            lesson: "Confidence remains reviewable when bounded.".into(),
            verification: VerificationEvidence::default(),
            evidence: CodeEvidence::default(),
            scope: MemoryScope::default(),
            confidence: confidence(1.2),
        },
        0,
        ProjectContext::default(),
        instant(),
    );

    assert!(result.is_err());
    assert_eq!(result.unwrap_err(), MemoryError::ConfidenceOutOfRange);
}
