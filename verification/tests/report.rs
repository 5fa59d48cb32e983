use llm_assisted_api_debugging_lab::report::render_evidence;
use llm_assisted_api_debugging_lab::{diagnose, render_report, render_short, Evidence};

#[test]
fn render_evidence_formats_every_variant() {
    let cases = vec![
        (Evidence::HttpStatus(401), "HTTP status: 401"),
        (
            Evidence::HeaderPresent {
                name: "Authorization".into(),
                value: Some("***".into()),
            },
            "Request header present: Authorization = ***",
        ),
        (
            Evidence::HeaderPresent {
                name: "X-Trace".into(),
                value: None,
            },
            "Request header present: X-Trace",
        ),
        (
            Evidence::HeaderMissing {
                name: "Authorization".into(),
            },
            "Request header missing: Authorization",
        ),
        (
            Evidence::BodyMutatedBeforeVerification,
            "Request body was modified by middleware before verification.",
        ),
        (
            Evidence::SignatureMismatch,
            "HMAC signature verification failed.",
        ),
        (
            Evidence::ClockDriftSecs {
                observed: -42,
                tolerance_secs: 300,
            },
            "Clock drift -42s exceeds tolerance 300s.",
        ),
        (Evidence::RetryAfterSecs(0), "Retry-After header: 0s"),
        (
            Evidence::RateLimitObserved {
                observed_rps: 112,
                limit_rps: 100,
            },
            "Observed rate 112 rps exceeds account limit 100 rps.",
        ),
        (
            Evidence::DnsResolutionFailed {
                host: "api.exmaple.com".into(),
                message: "no such host".into(),
            },
            "DNS resolution failed for api.exmaple.com: no such host",
        ),
        (
            Evidence::TlsHandshakeFailed {
                peer: "api.example.com".into(),
                reason: "certificate has expired".into(),
            },
            "TLS handshake to api.example.com failed: certificate has expired",
        ),
        (
            Evidence::ConnectionTimeout {
                elapsed_ms: 5012,
                timeout_ms: 5000,
            },
            "Client timeout: aborted after 5012ms (timeout 5000ms).",
        ),
        (
            Evidence::JsonValidationError {
                field: Some("amount".into()),
                message: "Expected integer, got string.".into(),
            },
            "JSON validation error on field `amount`: Expected integer, got string.",
        ),
        (
            Evidence::JsonValidationError {
                field: None,
                message: "bad".into(),
            },
            "JSON validation error: bad",
        ),
    ];
    for (e, want) in cases {
        assert_eq!(render_evidence(&e), want);
    }
}

#[test]
fn render_evidence_extreme_numbers() {
    assert_eq!(
        render_evidence(&Evidence::RetryAfterSecs(u64::MAX)),
        "Retry-After header: 18446744073709551615s"
    );
    assert_eq!(
        render_evidence(&Evidence::ClockDriftSecs {
            observed: i64::MIN,
            tolerance_secs: 0
        }),
        "Clock drift -9223372036854775808s exceeds tolerance 0s."
    );
}

#[test]
fn render_short_layout() {
    let d = diagnose("timeout", &[Evidence::ConnectionTimeout {
        elapsed_ms: 5012,
        timeout_ms: 5000,
    }]);
    let want = format!(
        "CASE: timeout\nRULE: connection_timeout\nSEVERITY: high (author judgment)\nLIKELY CAUSE: {}\nEVIDENCE:\n- Client timeout: aborted after 5012ms (timeout 5000ms).\nREPRODUCTION:\ncargo run -p llm-assisted-api-debugging-lab -- diagnose timeout\n",
        d.likely_cause
    );
    assert_eq!(render_short(&d), want);
}

#[test]
fn render_short_omits_empty_evidence_section() {
    let d = diagnose("empty", &[]);
    let s = render_short(&d);
    assert!(!s.contains("EVIDENCE:"));
    assert!(s.ends_with("REPRODUCTION:\ncargo run -p llm-assisted-api-debugging-lab -- diagnose empty\n"));
}

#[test]
fn render_report_layout() {
    let d = diagnose("rate_limit", &[Evidence::HttpStatus(429), Evidence::RetryAfterSecs(12)]);
    let r = render_report(&d);
    let mut want = String::new();
    want.push_str("CASE: rate_limit\nRULE: rate_limit\n");
    want.push_str(&format!(
        "SEVERITY: medium (author judgment: {})\n",
        d.severity_source.rationale()
    ));
    want.push_str(&format!("LIKELY CAUSE: {}\n\n", d.likely_cause));
    want.push_str("EVIDENCE:\n- HTTP status: 429\n- Retry-After header: 12s\n\n");
    want.push_str("HYPOTHESES (consistent with evidence; not asserted as fact):\n");
    for h in &d.hypotheses {
        want.push_str(&format!("- {h}\n"));
    }
    want.push_str("\nUNKNOWNS (do not invent answers):\n");
    for u in &d.unknowns {
        want.push_str(&format!("- {u}\n"));
    }
    want.push_str("\nREPRODUCTION:\ncargo run -p llm-assisted-api-debugging-lab -- diagnose rate_limit\n\n");
    want.push_str("NEXT STEPS:\n");
    for (i, s) in d.next_steps.iter().enumerate() {
        want.push_str(&format!("{}. {}\n", i + 1, s));
    }
    want.push_str(&format!("\nESCALATION NOTE:\n{}\n", d.escalation_note));
    assert_eq!(r, want);
}

#[test]
fn render_report_marks_empty_sections() {
    let d = diagnose("empty", &[]);
    let r = render_report(&d);
    assert!(r.contains("EVIDENCE:\n- (none collected)\n"));
}
