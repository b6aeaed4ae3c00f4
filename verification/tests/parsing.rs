use looplens::cli::{
    git_output_value, learn_command_input, learn_command_task, query_source, CliError,
    LearnCommand, QuerySource,
};
use looplens::model::{
    Confidence, ExperienceOutcome, MemoryScope, TaskType, VerificationResult, VerificationSource,
};
use looplens::protocol::{
    default_top_k, http_response, jsonrpc_version, parse_request_line, parse_usize,
    read_header_line, record_attempt_message, route_failure, route_http, route_rpc,
    service_bind_address, split_words, status_text, HeaderLine, HttpRoute, RequestError,
    RpcFailure, RpcRoute,
};
use looplens::text::{char_is_whitespace, compare_text, decimal_text, join, text_eq, trim, trim_end, TextOrder};

fn strings(items: &[&str]) -> Vec<String> {
    items.iter().map(|s| s.to_string()).collect()
}

#[test]
fn parses_task_type_aliases() {
    assert_eq!(TaskType::parse(" BUG "), Ok(TaskType::Bugfix));
    assert_eq!(TaskType::parse("fix"), Ok(TaskType::Bugfix));
    assert_eq!(TaskType::parse("Feat"), Ok(TaskType::Feature));
    assert_eq!(TaskType::parse("refactor"), Ok(TaskType::Refactor));
    assert_eq!(TaskType::parse("migrate"), Ok(TaskType::Migration));
    assert_eq!(TaskType::parse("PERF"), Ok(TaskType::Performance));
    assert_eq!(TaskType::parse("build"), Ok(TaskType::Build));
    assert_eq!(TaskType::parse("deploy"), Ok(TaskType::Deployment));
    assert_eq!(TaskType::parse("test"), Ok(TaskType::Testing));
    assert_eq!(TaskType::parse("config"), Ok(TaskType::Configuration));
    assert_eq!(TaskType::parse("deps"), Ok(TaskType::Dependency));
    assert_eq!(TaskType::parse("other"), Ok(TaskType::Other));
    assert_eq!("Configuration".parse::<TaskType>(), Ok(TaskType::Configuration));
}

#[test]
fn reports_unknown_task_type() {
    assert_eq!(TaskType::parse("  Chore "), Err("unknown task type `chore`".to_string()));
    assert_eq!(TaskType::parse(""), Err("unknown task type ``".to_string()));
}

#[test]
fn parses_verification_sources() {
    assert_eq!(VerificationSource::parse("tests"), Ok(VerificationSource::Test));
    assert_eq!(VerificationSource::parse(" CI "), Ok(VerificationSource::Ci));
    assert_eq!(VerificationSource::parse("lint"), Ok(VerificationSource::Lint));
    assert_eq!(VerificationSource::parse("Approval"), Ok(VerificationSource::Human));
    assert_eq!(VerificationSource::parse("custom"), Ok(VerificationSource::Custom));
    assert_eq!(VerificationSource::parse("unknown"), Ok(VerificationSource::Unspecified));
    assert_eq!(
        VerificationSource::parse("Nope"),
        Err("unknown verification source `nope`".to_string())
    );
}

#[test]
fn labels_are_variant_names() {
    assert_eq!(TaskType::Bugfix.label(), "Bugfix");
    assert_eq!(TaskType::default(), TaskType::Other);
    assert_eq!(VerificationSource::Ci.label(), "Ci");
    assert_eq!(VerificationSource::default(), VerificationSource::Unspecified);
    assert_eq!(VerificationResult::Passed.label(), "Passed");
    assert_eq!(VerificationResult::default(), VerificationResult::Unknown);
    assert_eq!(ExperienceOutcome::VerifiedSuccess.label(), "VerifiedSuccess");
    assert_eq!(ExperienceOutcome::default(), ExperienceOutcome::Unverified);
    assert_eq!(
        MemoryScope::default(),
        MemoryScope { project: true, stack: true, global: false }
    );
}

#[test]
fn confidence_bounds_follow_float_comparison() {
    let inside = |v: f32| Confidence { bits: v.to_bits() }.is_in_unit_interval();
    assert!(inside(0.0));
    assert!(inside(-0.0));
    assert!(inside(0.5));
    assert!(inside(1.0));
    assert!(!inside(1.0000001));
    assert!(!inside(-0.1));
    assert!(!inside(f32::NAN));
    assert!(!inside(f32::INFINITY));
    for v in [0.0f32, 0.25, 0.99, 1.0, 1.5, -2.0, 3.0e-40] {
        assert_eq!(inside(v), (0.0..=1.0).contains(&v));
    }
}

#[test]
fn text_helpers() {
    assert_eq!(trim("\t  spaced out \u{3000}\n"), "spaced out");
    assert_eq!(trim_end("  keep front \r\n"), "  keep front");
    assert!(text_eq("same", "same"));
    assert!(!text_eq("same", "Same"));
    assert_eq!(compare_text("abc", "abd"), TextOrder::Before);
    assert_eq!(compare_text("ab", "abc"), TextOrder::Before);
    assert_eq!(compare_text("b", "abc"), TextOrder::After);
    assert_eq!(compare_text("é", "z"), TextOrder::After);
    assert_eq!(compare_text("x", "x"), TextOrder::Same);
    assert_eq!(join(&strings(&["a", "b", "c"]), ", "), "a, b, c");
    assert_eq!(join(&strings(&[]), ", "), "");
    assert_eq!(decimal_text(0), "0");
    assert_eq!(decimal_text(907), "907");
    assert_eq!(decimal_text(u64::MAX), "18446744073709551615");
}

#[test]
fn routes_json_rpc_requests() {
    assert_eq!(jsonrpc_version(), "2.0");
    assert_eq!(default_top_k(), 3);
    assert_eq!(route_rpc("2.0", "get_project_context"), RpcRoute::ProjectContext);
    assert_eq!(route_rpc("2.0", "recall_context"), RpcRoute::Recall);
    assert_eq!(route_rpc("2.0", "store_experience"), RpcRoute::Store);
    assert_eq!(route_rpc("2.0", "record_attempt"), RpcRoute::RecordAttempt);
    assert_eq!(route_rpc("2.0", "drop_tables"), RpcRoute::UnknownMethod);
    assert_eq!(route_rpc("1.0", "recall_context"), RpcRoute::InvalidVersion);
    assert_eq!(
        route_failure(RpcRoute::InvalidVersion),
        Some((RpcFailure::InvalidVersion, "jsonrpc must be 2.0"))
    );
    assert_eq!(
        route_failure(RpcRoute::UnknownMethod),
        Some((RpcFailure::UnknownMethod, "unknown method"))
    );
    assert_eq!(route_failure(RpcRoute::Recall), None);
    assert_eq!(RpcFailure::Parse.code(), -32700);
    assert_eq!(RpcFailure::InvalidVersion.code(), -32600);
    assert_eq!(RpcFailure::UnknownMethod.code(), -32601);
    assert_eq!(RpcFailure::Engine.code(), -32000);
    assert!(record_attempt_message().starts_with("record_attempt is accepted"));
}

#[test]
fn routes_http_requests() {
    assert_eq!(route_http("OPTIONS", "/anything"), HttpRoute::Preflight);
    assert_eq!(route_http("GET", "/health"), HttpRoute::Health);
    assert_eq!(route_http("GET", "/project_context"), HttpRoute::ProjectContext);
    assert_eq!(route_http("POST", "/recall_context"), HttpRoute::Recall);
    assert_eq!(route_http("POST", "/store_experience"), HttpRoute::Store);
    assert_eq!(route_http("GET", "/recall_context"), HttpRoute::NotFound);
    assert_eq!(route_http("DELETE", "/health"), HttpRoute::NotFound);
    assert_eq!(status_text(200), "OK");
    assert_eq!(status_text(204), "No Content");
    assert_eq!(status_text(400), "Bad Request");
    assert_eq!(status_text(404), "Not Found");
    assert_eq!(status_text(500), "Internal Server Error");
    assert_eq!(status_text(418), "Internal Server Error");
}

#[test]
fn writes_http_responses() {
    let head = "\r\nContent-Type: application/json\r\nAccess-Control-Allow-Origin: *\r\nAccess-Control-Allow-Methods: GET, POST, OPTIONS\r\nAccess-Control-Allow-Headers: content-type\r\nContent-Length: ";
    assert_eq!(
        http_response(200, "{\"ok\":\"é\"}"),
        format!("HTTP/1.1 200 OK{head}11\r\nConnection: close\r\n\r\n{{\"ok\":\"é\"}}")
    );
    assert_eq!(
        http_response(204, "{}"),
        format!("HTTP/1.1 204 No Content{head}0\r\nConnection: close\r\n\r\n")
    );
}

#[test]
fn picks_the_bind_address() {
    assert_eq!(service_bind_address(Some("10.0.0.1:9".into()), Some("80".into())), "10.0.0.1:9");
    assert_eq!(service_bind_address(None, Some("8080".into())), "0.0.0.0:8080");
    assert_eq!(service_bind_address(None, None), "127.0.0.1:8787");
}

#[test]
fn parses_request_lines() {
    assert_eq!(
        parse_request_line("POST /recall_context HTTP/1.1\r\n"),
        Ok(("POST".to_string(), "/recall_context".to_string()))
    );
    assert_eq!(parse_request_line("  GET\t /health  "), Ok(("GET".to_string(), "/health".to_string())));
    assert_eq!(parse_request_line(" \r\n"), Err(RequestError::MissingRequestLine));
    assert_eq!(parse_request_line("GET"), Err(RequestError::MissingPath));
    assert_eq!(RequestError::MissingPath.message(), "missing path");
    assert_eq!(RequestError::InvalidContentLength.message(), "invalid Content-Length");
    assert_eq!(split_words("  a  bb\tc\n"), strings(&["a", "bb", "c"]));
    assert_eq!(split_words(""), strings(&[]));
}

#[test]
fn reads_content_lengths() {
    assert_eq!(parse_usize("42"), Some(42));
    assert_eq!(parse_usize("+7"), Some(7));
    assert_eq!(parse_usize("007"), Some(7));
    assert_eq!(parse_usize(""), None);
    assert_eq!(parse_usize("+"), None);
    assert_eq!(parse_usize("-1"), None);
    assert_eq!(parse_usize("12a"), None);
    assert_eq!(parse_usize(&usize::MAX.to_string()), Some(usize::MAX));
    assert_eq!(parse_usize("18446744073709551616"), None);
    for text in ["0", "1", "65535", "+00", "x", " 1", "99999999999999999999"] {
        assert_eq!(parse_usize(text), text.parse::<usize>().ok());
    }
    assert_eq!(read_header_line("Content-Length: 42\r\n"), HeaderLine::ContentLength(42));
    assert_eq!(read_header_line("Content-Length:7"), HeaderLine::ContentLength(7));
    assert_eq!(read_header_line("Content-Length: lots\r\n"), HeaderLine::InvalidContentLength);
    assert_eq!(read_header_line("content-length: 42\r\n"), HeaderLine::Other);
    assert_eq!(read_header_line("Host: localhost\r\n"), HeaderLine::Other);
    assert_eq!(read_header_line("\r\n"), HeaderLine::End);
}

#[test]
fn chooses_the_recall_query() {
    match query_source(Some("login".into()), Some("legacy".into()), false) {
        QuerySource::Task(t) => assert_eq!(t, "login"),
        other => panic!("unexpected {other:?}"),
    }
    match query_source(None, Some("legacy".into()), false) {
        QuerySource::Task(t) => assert_eq!(t, "legacy"),
        other => panic!("unexpected {other:?}"),
    }
    assert!(matches!(query_source(None, None, true), QuerySource::FailureBundle));
    assert!(matches!(query_source(Some("x".into()), None, true), QuerySource::Missing));
    assert!(matches!(query_source(None, None, false), QuerySource::Missing));
    assert_eq!(CliError::QueryRequired.message(), "provide --task or --failure-bundle");
}

#[test]
fn learn_command_needs_verification_and_a_task() {
    assert_eq!(
        learn_command_task(false, false, Some("t".into()), None),
        Err(CliError::NotVerified)
    );
    assert_eq!(learn_command_task(true, false, None, None), Err(CliError::TaskRequired));
    assert_eq!(learn_command_task(false, true, None, Some("old".into())), Ok("old".to_string()));
    assert_eq!(
        learn_command_task(true, false, Some("new".into()), Some("old".into())),
        Ok("new".to_string())
    );
    assert_eq!(
        CliError::NotVerified.message(),
        "learn requires --verified after successful verification"
    );
    assert_eq!(CliError::TaskRequired.message(), "--task is required");
}

#[test]
fn learn_command_builds_the_input() {
    let cmd = LearnCommand {
        task_type: TaskType::Bugfix,
        hypothesis: None,
        failed_attempts: strings(&["retry"]),
        successful_decision: "pin version".into(),
        files: vec![],
        legacy_patches: strings(&["Cargo.toml"]),
        lesson: "pin early".into(),
        verification_source: VerificationSource::Test,
        verification_command: Some("cargo test".into()),
        verification_reference: None,
        run_id: None,
        test_id: None,
        target_url: None,
        dashboard_url: None,
        agent: Some("codex".into()),
        files_changed: vec![],
        global_scope: true,
        confidence: Confidence { bits: 0.5f32.to_bits() },
    };
    let input = learn_command_input(cmd, "fix build".into(), Some("abc123".into()), None);
    assert_eq!(input.task, "fix build");
    assert_eq!(input.files, strings(&["Cargo.toml"]));
    assert_eq!(input.verification.files_changed, strings(&["Cargo.toml"]));
    assert_eq!(input.evidence.files_changed, strings(&["Cargo.toml"]));
    assert_eq!(input.verification.result, VerificationResult::Passed);
    assert_eq!(input.verification.source, VerificationSource::Test);
    assert_eq!(input.evidence.commit_sha, Some("abc123".to_string()));
    assert_eq!(input.evidence.agent, Some("codex".to_string()));
    assert_eq!(input.scope, MemoryScope { project: true, stack: true, global: true });
}

#[test]
fn reads_git_output() {
    assert_eq!(git_output_value("  main\n"), Some("main".to_string()));
    assert_eq!(git_output_value(" \n"), None);
    assert_eq!(git_output_value(""), None);
}

#[test]
fn whitespace_is_the_unicode_property() {
    for c in (0u32..=0x10FFFF).filter_map(char::from_u32) {
        assert_eq!(char_is_whitespace(c), c.is_whitespace(), "{:x}", c as u32);
    }
}

#[test]
fn no_white_space_is_alphanumeric() {
    for c in (0u32..=0x10FFFF).filter_map(char::from_u32) {
        assert!(!(c.is_whitespace() && c.is_alphanumeric()), "{:x}", c as u32);
    }
}

#[test]
fn stored_names_read_back() {
    let names = [
        ("bugfix", TaskType::Bugfix),
        ("feature", TaskType::Feature),
        ("refactor", TaskType::Refactor),
        ("migration", TaskType::Migration),
        ("performance", TaskType::Performance),
        ("build", TaskType::Build),
        ("deployment", TaskType::Deployment),
        ("testing", TaskType::Testing),
        ("configuration", TaskType::Configuration),
        ("dependency", TaskType::Dependency),
        ("other", TaskType::Other),
    ];
    for (name, t) in names {
        assert_eq!(name.parse::<TaskType>(), Ok(t));
        assert_eq!(format!("  {}\t", name.to_uppercase()).parse::<TaskType>(), Ok(t));
    }
    let sources = [
        ("test", VerificationSource::Test),
        ("build", VerificationSource::Build),
        ("lint", VerificationSource::Lint),
        ("ci", VerificationSource::Ci),
        ("human", VerificationSource::Human),
        ("custom", VerificationSource::Custom),
        ("unspecified", VerificationSource::Unspecified),
    ];
    for (name, s) in sources {
        assert_eq!(name.parse::<VerificationSource>(), Ok(s));
        assert_eq!(VerificationSource::parse(&format!(" {} ", name.to_uppercase())), Ok(s));
    }
}
