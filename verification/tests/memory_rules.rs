use looplens::engine::{
    context_source, experience_file_name, is_yaml_file_name, join_path, sort_by_id,
    trajectory_file_name, ContextSource, LayoutEntry, LayoutPresence, LoopLensEngine,
};
use looplens::experience::{
    experience_context_text, experience_text, next_id, validate_learn_input, LegacyEvidence,
    MemoryError, StoredRecord,
};
use looplens::model::{
    CodeEvidence, Confidence, Config, EngineeringExperience, ExperienceOutcome, LearnInput,
    MemoryScope, ProjectContext, StorageConfig, TaskRecord, TaskType, TrajectorySummary,
    VerificationEvidence, VerificationResult, VerificationSource,
};
use looplens::protocol::{service_recall_input, stored_verification};
use looplens::time::{epoch_offset, Timestamp};

fn strings(items: &[&str]) -> Vec<String> {
    items.iter().map(|s| s.to_string()).collect()
}

fn at(seconds: i64) -> Timestamp {
    Timestamp::from_parts(seconds, 0).unwrap()
}

fn confidence(value: f32) -> Confidence {
    Confidence { bits: value.to_bits() }
}

fn request(task: &str) -> LearnInput {
    LearnInput {
        task: task.into(),
        task_type: TaskType::Bugfix,
        hypothesis: None,
        failed_attempts: strings(&["bumped timeout"]),
        successful_decision: "await the auth state".into(),
        files: strings(&["src/auth.rs"]),
        lesson: "wait for state before asserting".into(),
        verification: VerificationEvidence::default(),
        evidence: CodeEvidence::default(),
        scope: MemoryScope::default(),
        confidence: confidence(0.8),
    }
}

#[test]
fn names_experiences_with_padded_numbers() {
    assert_eq!(next_id(1), "EXP-001");
    assert_eq!(next_id(9), "EXP-009");
    assert_eq!(next_id(10), "EXP-010");
    assert_eq!(next_id(99), "EXP-099");
    assert_eq!(next_id(100), "EXP-100");
    assert_eq!(next_id(1000), "EXP-1000");
    for n in [0usize, 5, 42, 512, 12345] {
        assert_eq!(next_id(n), format!("EXP-{n:03}"));
    }
}

#[test]
fn refuses_each_kind_of_bad_request() {
    let mut blank_task = request("   ");
    blank_task.task = " \t".into();
    assert_eq!(validate_learn_input(&blank_task), Err(MemoryError::TaskRequired));

    let mut blank_decision = request("task");
    blank_decision.successful_decision = "\n".into();
    assert_eq!(validate_learn_input(&blank_decision), Err(MemoryError::DecisionRequired));

    let mut blank_lesson = request("task");
    blank_lesson.lesson = "".into();
    assert_eq!(validate_learn_input(&blank_lesson), Err(MemoryError::LessonRequired));

    let mut failed = request("task");
    failed.verification.result = VerificationResult::Failed;
    assert_eq!(validate_learn_input(&failed), Err(MemoryError::FailedVerification));

    for bad in [-0.01f32, 1.01, f32::NAN, f32::NEG_INFINITY] {
        let mut out_of_range = request("task");
        out_of_range.confidence = confidence(bad);
        assert_eq!(validate_learn_input(&out_of_range), Err(MemoryError::ConfidenceOutOfRange));
    }
    for good in [0.0f32, -0.0, 1.0] {
        let mut bounded = request("task");
        bounded.confidence = confidence(good);
        assert_eq!(validate_learn_input(&bounded), Ok(()));
    }

    let mut first_reason_wins = request(" ");
    first_reason_wins.lesson = " ".into();
    assert_eq!(validate_learn_input(&first_reason_wins), Err(MemoryError::TaskRequired));

    assert_eq!(MemoryError::TaskRequired.message(), "task is required");
    assert_eq!(MemoryError::DecisionRequired.message(), "successful decision is required");
    assert_eq!(MemoryError::LessonRequired.message(), "lesson is required");
    assert_eq!(
        MemoryError::FailedVerification.message(),
        "learn stores verified successes; record failed attempts in the trajectory"
    );
    assert_eq!(
        MemoryError::ConfidenceOutOfRange.message(),
        "confidence must be between 0.0 and 1.0"
    );
}

#[test]
fn learning_stores_a_verified_success() {
    let engine = LoopLensEngine::new("/work".to_string());
    let mut input = request("Login fails after refresh");
    input.verification.source = VerificationSource::Ci;
    input.evidence.files_changed = strings(&["src/session.rs"]);
    let context = ProjectContext { name: "web".into(), ..ProjectContext::default() };
    let e = engine.learn(input, 3, context, at(1767323045)).unwrap();

    assert_eq!(e.id, "EXP-004");
    assert_eq!(e.outcome, ExperienceOutcome::VerifiedSuccess);
    assert_eq!(e.verification.result, VerificationResult::Passed);
    assert_eq!(e.verification.source, VerificationSource::Ci);
    assert_eq!(e.verification.files_changed, strings(&["src/auth.rs"]));
    assert_eq!(e.evidence.files_changed, strings(&["src/session.rs"]));
    assert_eq!(e.created_at.seconds(), 1767323045);
    assert_eq!(e.verified_at.seconds(), 1767323045);
    assert_eq!(e.context.name, "web");
    assert_eq!(e.task.summary, "Login fails after refresh");
    assert_eq!(e.trajectory.failed_attempts, strings(&["bumped timeout"]));

    let refused = engine.learn(request(""), 0, ProjectContext::default(), at(0));
    assert_eq!(refused.unwrap_err(), MemoryError::TaskRequired);

    let now = engine.learn_now(request("clock"), 0, ProjectContext::default()).unwrap();
    assert_eq!(now.id, "EXP-001");
    assert!(now.created_at.seconds() > 1_700_000_000);
}

#[test]
fn needs_an_initialized_memory() {
    let engine = LoopLensEngine::new("/work".to_string());
    assert_eq!(engine.ensure_initialized(false, false), Err(MemoryError::NotInitialized));
    assert_eq!(engine.ensure_initialized(true, false), Ok(()));
    assert_eq!(engine.ensure_initialized(false, true), Ok(()));
    assert_eq!(
        MemoryError::NotInitialized.message(),
        "LoopLens is not initialized. Run `looplens init` first."
    );
}

#[test]
fn lays_out_memory_paths() {
    assert_eq!(join_path("", "a"), "a");
    assert_eq!(join_path("/tmp/", "a"), "/tmp/a");
    assert_eq!(join_path("/tmp", "a"), "/tmp/a");
    let engine = LoopLensEngine::new("/repo".to_string());
    assert_eq!(engine.memory_dir(), "/repo/.looplens");
    assert_eq!(engine.experiences_dir(), "/repo/.looplens/experiences");
    assert_eq!(engine.entry_path(LayoutEntry::LoopFile), "/repo/.looplens/LOOP.md");
    assert_eq!(LoopLensEngine::new(String::new()).memory_dir(), ".looplens");
    assert_eq!(experience_file_name("EXP-001"), "exp-001.yaml");
    assert_eq!(trajectory_file_name("EXP-042"), "exp-042.md");
}

#[test]
fn init_creates_only_what_is_missing() {
    let engine = LoopLensEngine::new("/repo".to_string());
    let partial = LayoutPresence {
        memory_dir: true,
        experiences_dir: true,
        trajectories_dir: false,
        project_file: false,
        config_file: true,
        loop_file: false,
    };
    let plan = engine.init_plan(&partial);
    assert_eq!(
        plan,
        vec![LayoutEntry::TrajectoriesDir, LayoutEntry::ProjectFile, LayoutEntry::LoopFile]
    );
    let result = engine.init_result(&plan);
    assert_eq!(result.root, "/repo/.looplens");
    assert_eq!(
        result.created,
        strings(&[
            "/repo/.looplens/trajectories",
            "/repo/.looplens/project.toml",
            "/repo/.looplens/LOOP.md",
        ])
    );
    let complete = LayoutPresence {
        memory_dir: true,
        experiences_dir: true,
        trajectories_dir: true,
        project_file: true,
        config_file: true,
        loop_file: true,
    };
    assert!(engine.init_plan(&complete).is_empty());
}

#[test]
fn project_context_sources() {
    assert_eq!(context_source(true, true), ContextSource::ProjectFile);
    assert_eq!(context_source(false, true), ContextSource::LegacyConfig);
    assert_eq!(context_source(false, false), ContextSource::Default);

    let config = Config {
        version: "0.1".into(),
        project: "legacy memory".into(),
        storage: StorageConfig {
            experiences_dir: "experiences".into(),
            trajectories_dir: "trajectories".into(),
        },
    };
    let context = ProjectContext::from_config(config);
    assert_eq!(context.name, "legacy memory");
    assert_eq!(context.languages, strings(&["rust"]));
    assert_eq!(context.runtime, Some("native".to_string()));
    assert_eq!(context.package_manager, Some("cargo".to_string()));
    assert_eq!(context.test_frameworks, strings(&["cargo test"]));

    let defaults = Config::default();
    assert_eq!(defaults.version, "0.2");
    assert_eq!(defaults.project, "LoopLens engineering memory");
    assert_eq!(defaults.storage.experiences_dir, "experiences");
    assert_eq!(defaults.storage.trajectories_dir, "trajectories");
    assert_eq!(ProjectContext::default().name, "LoopLens project");
}

#[test]
fn recognizes_experience_files() {
    assert!(is_yaml_file_name("exp-001.yaml"));
    assert!(is_yaml_file_name("a.yaml"));
    assert!(!is_yaml_file_name(".yaml"));
    assert!(!is_yaml_file_name("exp-001.yml"));
    assert!(!is_yaml_file_name("exp-001.yaml.bak"));
    assert!(!is_yaml_file_name("notes.md"));
}

#[test]
fn sorts_experiences_by_id() {
    let engine = LoopLensEngine::new("/repo".to_string());
    let make = |n: usize, lesson: &str| {
        let mut input = request("task");
        input.lesson = lesson.into();
        engine.learn(input, n - 1, ProjectContext::default(), at(0)).unwrap()
    };
    let sorted = sort_by_id(vec![make(10, "ten"), make(2, "two"), make(1, "one"), make(2, "two again")]);
    let ids: Vec<&str> = sorted.iter().map(|e| e.id.as_str()).collect();
    assert_eq!(ids, vec!["EXP-001", "EXP-002", "EXP-002", "EXP-010"]);
    assert_eq!(sorted[1].lesson, "two");
    assert_eq!(sorted[2].lesson, "two again");
}

fn record(id: &str) -> StoredRecord {
    StoredRecord {
        id: id.into(),
        created_at: at(100),
        verified_at: None,
        task: None,
        problem: None,
        task_type: None,
        context: None,
        hypothesis: None,
        trajectory: None,
        trajectory_summary: None,
        patches: vec![],
        lesson: "lesson".into(),
        verification: None,
        verified: None,
        outcome: None,
        evidence: None,
        scope: MemoryScope::default(),
        confidence: confidence(0.5),
    }
}

#[test]
fn migrates_first_version_evidence() {
    let mut legacy = record("EXP-007");
    legacy.patches = strings(&["old.patch"]);
    legacy.evidence = Some(LegacyEvidence {
        run_id: Some("run-9".into()),
        target_url: Some("https://app".into()),
        commit_sha: Some("deadbeef".into()),
        ..LegacyEvidence::default()
    });
    legacy.task = Some(TaskRecord { summary: "  ".into(), task_type: TaskType::Build, hypothesis: None });
    legacy.problem = Some("build breaks".into());
    let e = EngineeringExperience::from_record(legacy);
    assert_eq!(e.task.summary, "build breaks");
    assert_eq!(e.task.task_type, TaskType::Build);
    assert_eq!(e.verification.run_id, Some("run-9".to_string()));
    assert_eq!(e.verification.target_url, Some("https://app".to_string()));
    assert_eq!(e.verification.files_changed, strings(&["old.patch"]));
    assert_eq!(e.evidence.files_changed, strings(&["old.patch"]));
    assert_eq!(e.evidence.commit_sha, Some("deadbeef".to_string()));
    assert_eq!(e.verification.source, VerificationSource::Unspecified);
    assert_eq!(e.verification.result, VerificationResult::Unknown);
    assert_eq!(e.outcome, ExperienceOutcome::VerifiedSuccess);
    assert_eq!(e.context.name, "LoopLens project");
    assert_eq!(e.verified_at.seconds(), 100);
}

#[test]
fn migration_keeps_current_records() {
    let mut current = record("EXP-002");
    current.verified_at = Some(at(200));
    current.outcome = Some(ExperienceOutcome::VerifiedFailure);
    current.verified = Some(looplens::experience::LegacyVerificationStatus::Pass);
    current.verification = Some(VerificationEvidence {
        source: VerificationSource::Lint,
        result: VerificationResult::Failed,
        reference: Some("PR-12".into()),
        ..VerificationEvidence::default()
    });
    current.trajectory = Some(TrajectorySummary {
        failed_attempts: strings(&["a"]),
        successful_decision: "b".into(),
    });
    current.trajectory_summary = Some(TrajectorySummary::default());
    let e = EngineeringExperience::from_record(current);
    assert_eq!(e.verified_at.seconds(), 200);
    assert_eq!(e.outcome, ExperienceOutcome::VerifiedFailure);
    assert_eq!(e.verification.source, VerificationSource::Lint);
    assert_eq!(e.verification.result, VerificationResult::Failed);
    assert_eq!(e.task.hypothesis, Some("PR-12".to_string()));
    assert_eq!(e.trajectory.successful_decision, "b");
}

#[test]
fn writes_match_texts() {
    let engine = LoopLensEngine::new("/repo".to_string());
    let mut input = request("Task");
    input.hypothesis = Some("Hyp".into());
    let e = engine.learn(input, 0, ProjectContext::default(), at(0)).unwrap();
    assert_eq!(
        experience_text(&e),
        "Task Hyp bumped timeout await the auth state src/auth.rs src/auth.rs wait for state before asserting"
    );
    assert_eq!(experience_context_text(&e), "rust  native cargo");
}

#[test]
fn agent_surfaces_store_passed_verifications() {
    let v = stored_verification(VerificationEvidence {
        result: VerificationResult::Failed,
        command: Some("npm test".into()),
        ..VerificationEvidence::default()
    });
    assert_eq!(v.source, VerificationSource::Custom);
    assert_eq!(v.result, VerificationResult::Passed);
    assert_eq!(v.command, Some("npm test".to_string()));
    let kept = stored_verification(VerificationEvidence {
        source: VerificationSource::Human,
        ..VerificationEvidence::default()
    });
    assert_eq!(kept.source, VerificationSource::Human);

    let input = service_recall_input("t".into(), None, vec![], strings(&["ts"]), vec![], vec![], 2);
    assert_eq!(input.languages, strings(&["ts"]));
    let input = service_recall_input("t".into(), None, vec![], strings(&["ts"]), strings(&["go"]), vec![], 2);
    assert_eq!(input.languages, strings(&["go"]));
    assert_eq!(input.top_k, 2);
}

#[test]
fn timestamps_are_representable_instants() {
    assert!(Timestamp::from_parts(i64::MAX, 0).is_none());
    let t = at(1767323045);
    assert_eq!(t.rfc3339(), "2026-01-02T03:04:05+00:00");
    let half = Timestamp::from_parts(1767323045, 500_000_000).unwrap();
    assert_eq!(half.rfc3339(), "2026-01-02T03:04:05.500+00:00");
    assert_eq!(half.nanos(), 500_000_000);
}

#[test]
fn current_records_read_back_unchanged() {
    let engine = LoopLensEngine::new("/repo".to_string());
    let mut input = request("Cache misses on deploy");
    input.hypothesis = Some("stale key".into());
    input.verification.reference = Some("PR-3".into());
    input.evidence.commit_sha = Some("c0ffee".into());
    let e = engine.learn(input, 4, ProjectContext::default(), at(1767323045)).unwrap();
    let stored = StoredRecord {
        id: e.id.clone(),
        created_at: e.created_at,
        verified_at: Some(e.verified_at),
        task: Some(e.task.clone()),
        problem: None,
        task_type: None,
        context: Some(e.context.clone()),
        hypothesis: None,
        trajectory: Some(e.trajectory.clone()),
        trajectory_summary: None,
        patches: vec![],
        lesson: e.lesson.clone(),
        verification: Some(e.verification.clone()),
        verified: None,
        outcome: Some(e.outcome),
        evidence: Some(LegacyEvidence {
            commit_sha: e.evidence.commit_sha.clone(),
            branch: e.evidence.branch.clone(),
            agent: e.evidence.agent.clone(),
            files_changed: e.evidence.files_changed.clone(),
            ..LegacyEvidence::default()
        }),
        scope: e.scope,
        confidence: e.confidence,
    };
    let x = EngineeringExperience::from_record(stored);
    assert_eq!(format!("{x:?}"), format!("{e:?}"));
}

#[test]
fn clock_readings_become_epoch_offsets() {
    assert_eq!(epoch_offset(true, 5, 250), Some((5, 250)));
    assert_eq!(epoch_offset(false, 5, 0), Some((-5, 0)));
    assert_eq!(epoch_offset(false, 5, 250), Some((-6, 999_999_750)));
    assert_eq!(epoch_offset(false, 1u64 << 63, 0), Some((i64::MIN, 0)));
    assert_eq!(epoch_offset(false, 1u64 << 63, 1), None);
    assert_eq!(epoch_offset(true, 1u64 << 63, 0), None);
    assert!(Timestamp::now().is_some());
}

#[test]
fn experience_ids_are_distinct() {
    let mut ids: Vec<String> = (0..3000usize).map(next_id).collect();
    ids.sort();
    ids.dedup();
    assert_eq!(ids.len(), 3000);
}
