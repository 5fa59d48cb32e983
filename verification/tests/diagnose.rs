use llm_assisted_api_debugging_lab::diagnose::{pick, EvidenceKind};
use llm_assisted_api_debugging_lab::{diagnose, Evidence, Severity, SeveritySource};

#[test]
fn dns_failure_wins_over_other_signals() {
    let ev = vec![
        Evidence::DnsResolutionFailed {
            host: "api.exmaple.com".into(),
            message: "no such host".into(),
        },
        Evidence::HttpStatus(401),
    ];
    let d = diagnose("dns_config", &ev);
    assert_eq!(d.rule, "dns_failure");
    assert_eq!(d.severity, Severity::Critical);
}

#[test]
fn tls_failure_rule_matches() {
    let ev = vec![Evidence::TlsHandshakeFailed {
        peer: "api.example.com".into(),
        reason: "certificate has expired".into(),
    }];
    let d = diagnose("tls_failure", &ev);
    assert_eq!(d.rule, "tls_failure");
    assert_eq!(d.severity, Severity::Critical);
}

#[test]
fn tls_failure_rule_orders_after_dns_failure() {
    let ev = vec![
        Evidence::DnsResolutionFailed {
            host: "api.example.com".into(),
            message: "no such host".into(),
        },
        Evidence::TlsHandshakeFailed {
            peer: "api.example.com".into(),
            reason: "certificate has expired".into(),
        },
    ];
    let d = diagnose("ambiguous", &ev);
    assert_eq!(d.rule, "dns_failure");
}

#[test]
fn connection_timeout_rule_matches() {
    let ev = vec![Evidence::ConnectionTimeout {
        elapsed_ms: 5012,
        timeout_ms: 5000,
    }];
    let d = diagnose("timeout", &ev);
    assert_eq!(d.rule, "connection_timeout");
    assert_eq!(d.severity, Severity::High);
}

#[test]
fn webhook_signature_rule_matches() {
    let ev = vec![
        Evidence::HttpStatus(401),
        Evidence::SignatureMismatch,
        Evidence::ClockDriftSecs {
            observed: 360,
            tolerance_secs: 300,
        },
        Evidence::BodyMutatedBeforeVerification,
    ];
    let d = diagnose("webhook_signature", &ev);
    assert_eq!(d.rule, "webhook_signature");
    assert_eq!(d.severity, Severity::High);
}

#[test]
fn rate_limit_rule_requires_429_and_retry_after() {
    let with_retry = vec![Evidence::HttpStatus(429), Evidence::RetryAfterSecs(12)];
    assert_eq!(diagnose("rate_limit", &with_retry).rule, "rate_limit");

    let without_retry = vec![Evidence::HttpStatus(429)];
    assert_eq!(diagnose("rate_limit", &without_retry).rule, "unknown");
}

#[test]
fn auth_missing_rule_matches() {
    let ev = vec![
        Evidence::HttpStatus(401),
        Evidence::HeaderMissing {
            name: "Authorization".into(),
        },
    ];
    let d = diagnose("auth_missing", &ev);
    assert_eq!(d.rule, "auth_missing");
    assert_eq!(d.severity, Severity::Medium);
}

#[test]
fn bad_payload_rule_matches() {
    let ev = vec![
        Evidence::HttpStatus(400),
        Evidence::JsonValidationError {
            field: Some("amount".into()),
            message: "Expected integer, got string.".into(),
        },
    ];
    let d = diagnose("bad_payload", &ev);
    assert_eq!(d.rule, "bad_payload");
    assert!(d.likely_cause.contains("`amount`"));
}

#[test]
fn unknown_pattern_does_not_invent_a_cause() {
    let ev = vec![Evidence::HttpStatus(418)];
    let d = diagnose("teapot", &ev);
    assert_eq!(d.rule, "unknown");
    assert!(d.likely_cause.contains("does not match"));
}

#[test]
fn bad_payload_without_field_uses_no_field_template() {
    let ev = vec![
        Evidence::JsonValidationError {
            field: None,
            message: "schema validation failed".into(),
        },
        Evidence::HttpStatus(400),
    ];
    let d = diagnose("bad_payload", &ev);
    assert_eq!(d.rule, "bad_payload");
    assert_eq!(d.severity, Severity::Low);
    assert!(!d.likely_cause.contains("{field}"));
    assert!(!d.likely_cause.is_empty());
    // Pinned order: status first, then the validation error.
    assert_eq!(d.evidence[0], Evidence::HttpStatus(400));
}

#[test]
fn dns_likely_cause_names_the_first_host() {
    let ev = vec![
        Evidence::DnsResolutionFailed {
            host: "first.example".into(),
            message: "no such host".into(),
        },
        Evidence::DnsResolutionFailed {
            host: "second.example".into(),
            message: "no such host".into(),
        },
    ];
    let d = diagnose("dns_config", &ev);
    assert!(d.likely_cause.contains("first.example"));
    assert!(!d.likely_cause.contains("second.example"));
    assert!(!d.likely_cause.contains("{host}"));
}

#[test]
fn tls_likely_cause_names_the_peer() {
    let ev = vec![Evidence::TlsHandshakeFailed {
        peer: "api.example.com".into(),
        reason: "certificate has expired".into(),
    }];
    let d = diagnose("tls_failure", &ev);
    assert!(d.likely_cause.contains("api.example.com"));
    assert!(!d.likely_cause.contains("{peer}"));
}

#[test]
fn diagnosis_carries_case_name_and_reproduction() {
    let d = diagnose("teapot", &[Evidence::HttpStatus(418)]);
    assert_eq!(d.case, "teapot");
    assert_eq!(
        d.reproduction,
        "cargo run -p llm-assisted-api-debugging-lab -- diagnose teapot"
    );
    assert_eq!(d.severity, Severity::Low);
    assert!(matches!(d.severity_source, SeveritySource::AuthorJudgment { .. }));
    assert_eq!(d.evidence, vec![Evidence::HttpStatus(418)]);
}

#[test]
fn unknown_on_empty_evidence() {
    let d = diagnose("empty", &[]);
    assert_eq!(d.rule, "unknown");
    assert!(d.evidence.is_empty());
}

#[test]
fn webhook_signature_pins_evidence_in_rule_order() {
    let ev = vec![
        Evidence::BodyMutatedBeforeVerification,
        Evidence::ClockDriftSecs {
            observed: 360,
            tolerance_secs: 300,
        },
        Evidence::RetryAfterSecs(3),
        Evidence::SignatureMismatch,
        Evidence::HttpStatus(401),
    ];
    let d = diagnose("webhook_signature", &ev);
    assert_eq!(
        d.evidence,
        vec![
            Evidence::HttpStatus(401),
            Evidence::SignatureMismatch,
            Evidence::ClockDriftSecs {
                observed: 360,
                tolerance_secs: 300,
            },
            Evidence::BodyMutatedBeforeVerification,
        ]
    );
}

#[test]
fn rate_limit_wins_over_auth_missing() {
    let ev = vec![
        Evidence::HeaderMissing {
            name: "Authorization".into(),
        },
        Evidence::HttpStatus(401),
        Evidence::HttpStatus(429),
        Evidence::RetryAfterSecs(5),
    ];
    assert_eq!(diagnose("mixed", &ev).rule, "rate_limit");
}

#[test]
fn auth_missing_needs_the_authorization_header_name() {
    let ev = vec![
        Evidence::HttpStatus(401),
        Evidence::HeaderMissing {
            name: "X-Api-Key".into(),
        },
    ];
    assert_eq!(diagnose("other_header", &ev).rule, "unknown");
}

#[test]
fn pick_groups_by_kind_without_repeats() {
    let ev = vec![
        Evidence::HttpStatus(500),
        Evidence::SignatureMismatch,
        Evidence::HttpStatus(401),
        Evidence::SignatureMismatch,
        Evidence::HttpStatus(500),
    ];
    let out = pick(
        &ev,
        &vec![EvidenceKind::SignatureMismatch, EvidenceKind::HttpStatus],
    );
    assert_eq!(
        out,
        vec![
            Evidence::SignatureMismatch,
            Evidence::HttpStatus(500),
            Evidence::HttpStatus(401),
        ]
    );
}
