use llm_assisted_api_debugging_lab::cases::{
    case_fixture_path, check_loaded_name, exit_code_for, is_known, join_path, log_path_for,
    Context, Request,
};
use llm_assisted_api_debugging_lab::{Case, CaseError, KNOWN_CASES};

fn sample_case(name: &str, log_path: Option<&str>) -> Case {
    Case {
        name: name.into(),
        description: "sample".into(),
        request: Request {
            method: "GET".into(),
            url: "http://x".into(),
            headers: vec![],
            body_summary: String::new(),
            client_unix_ts: None,
            timeout_ms: None,
        },
        response: None,
        context: Context::default(),
        log_path: log_path.map(|s| s.to_string()),
    }
}

#[test]
fn known_cases_are_recognized() {
    assert_eq!(KNOWN_CASES.len(), 8);
    for name in KNOWN_CASES {
        assert!(is_known(name), "{name}");
    }
    assert!(!is_known("not_a_real_case"));
    assert!(!is_known("auth_missing "));
    assert!(!is_known(""));
}

#[test]
fn case_fixture_path_for_known_case() {
    assert_eq!(
        case_fixture_path("fixtures", "rate_limit").unwrap(),
        "fixtures/cases/rate_limit.json"
    );
    assert_eq!(
        case_fixture_path("fixtures/", "timeout").unwrap(),
        "fixtures/cases/timeout.json"
    );
    assert_eq!(
        case_fixture_path("", "dns_config").unwrap(),
        "cases/dns_config.json"
    );
}

#[test]
fn case_fixture_path_rejects_unknown_case() {
    match case_fixture_path("fixtures", "not_a_real_case") {
        Err(CaseError::Unknown(n)) => assert_eq!(n, "not_a_real_case"),
        other => panic!("expected Unknown, got {other:?}"),
    }
}

#[test]
fn join_path_follows_unix_rules() {
    assert_eq!(join_path("a", "b"), "a/b");
    assert_eq!(join_path("a/", "b"), "a/b");
    assert_eq!(join_path("", "b"), "b");
    assert_eq!(join_path("a", "/abs"), "/abs");
}

#[test]
fn log_path_for_joins_onto_root() {
    let c = sample_case("timeout", Some("fixtures/logs/timeout.log"));
    assert_eq!(
        log_path_for(&c, "/repo"),
        Some("/repo/fixtures/logs/timeout.log".to_string())
    );
    assert_eq!(log_path_for(&sample_case("timeout", None), "/repo"), None);
}

#[test]
fn name_mismatch_is_reported() {
    let c = sample_case("rate_limit", None);
    match check_loaded_name(c, "dir/cases/auth_missing.json".into(), "auth_missing") {
        Err(CaseError::NameMismatch {
            path,
            expected,
            found,
        }) => {
            assert_eq!(path, "dir/cases/auth_missing.json");
            assert_eq!(expected, "auth_missing");
            assert_eq!(found, "rate_limit");
        }
        other => panic!("expected NameMismatch, got {other:?}"),
    }
    let ok = check_loaded_name(sample_case("auth_missing", None), "p".into(), "auth_missing");
    assert_eq!(ok.unwrap().name, "auth_missing");
}

#[test]
fn exit_codes_follow_error_kind() {
    assert_eq!(exit_code_for(Some(&CaseError::Unknown("x".into()))), 2);
    assert_eq!(exit_code_for(Some(&CaseError::Io("p".into(), "e".into()))), 3);
    assert_eq!(
        exit_code_for(Some(&CaseError::Parse("p".into(), "e".into()))),
        3
    );
    assert_eq!(
        exit_code_for(Some(&CaseError::NameMismatch {
            path: "p".into(),
            expected: "a".into(),
            found: "b".into()
        })),
        3
    );
    assert_eq!(exit_code_for(None), 1);
}

#[test]
fn default_context_observes_nothing() {
    let c = Context::default();
    assert_eq!(c.dns_resolved, None);
    assert_eq!(c.tls_handshake_failed, None);
    assert_eq!(c.client_clock_skew_secs, None);
    assert_eq!(c.elapsed_ms_before_abort, None);
}
