use llm_assisted_api_debugging_lab::cases::{Context, Request, Response};
use llm_assisted_api_debugging_lab::evidence::{
    context_drift_in_range, log_drift_in_range, extract_kv_i64, extract_kv_str, extract_kv_u32, extract_kv_u64, is_redundant_with,
    parse_validation_error_body, push_unique, validation_error_from_fields,
};
use llm_assisted_api_debugging_lab::{collect_evidence, parse_log, Case, Evidence};

#[test]
fn parse_log_extracts_signature_mismatch_and_drift() {
    let log = "2026-05-11T08:04:40.005Z DEBUG webhook.verify msg=\"computing HMAC\" \
               drift_secs=360 tolerance_secs=300\n\
               2026-05-11T08:04:40.006Z WARN webhook.verify \
               msg=\"signature verification failed\" reason=signature_mismatch";
    let ev = parse_log(log);
    assert!(ev.contains(&Evidence::SignatureMismatch));
    assert!(ev.contains(&Evidence::ClockDriftSecs {
        observed: 360,
        tolerance_secs: 300
    }));
}

#[test]
fn parse_log_extracts_dns_failure() {
    let log = "2026-05-11T08:08:20.140Z ERROR http.client \
               msg=\"name resolution failed\" host=api.exmaple.com error=\"no such host\"";
    let ev = parse_log(log);
    assert_eq!(
        ev,
        vec![Evidence::DnsResolutionFailed {
            host: "api.exmaple.com".into(),
            message: "no such host".into(),
        }]
    );
}

#[test]
fn parse_log_extracts_rate_limit_burst() {
    let log = "2026-05-11T08:03:20.000Z WARN ratelimit msg=\"burst above limit\" \
               account=acct_*** observed_rps=112 limit_rps=100 retry_after_secs=12";
    let ev = parse_log(log);
    assert!(ev.contains(&Evidence::RetryAfterSecs(12)));
    assert!(ev.contains(&Evidence::RateLimitObserved {
        observed_rps: 112,
        limit_rps: 100
    }));
}

#[test]
fn parse_log_extracts_timeout() {
    let log = "2026-05-11T08:06:45.012Z WARN http.client msg=\"upstream timeout\" \
               elapsed_ms=5012 timeout_ms=5000";
    let ev = parse_log(log);
    assert_eq!(
        ev,
        vec![Evidence::ConnectionTimeout {
            elapsed_ms: 5012,
            timeout_ms: 5000
        }]
    );
}

#[test]
fn parse_log_extracts_validation_error() {
    let log = "2026-05-11T08:01:40.022Z WARN charges.handler \
               msg=\"schema validation failed\" field=amount expected=integer got=string";
    let ev = parse_log(log);
    assert_eq!(
        ev,
        vec![Evidence::JsonValidationError {
            field: Some("amount".into()),
            message: "schema validation failed".into(),
        }]
    );
}

#[test]
fn extract_kv_handles_quoted_value_with_spaces() {
    let line = "msg=\"value with spaces\" host=example.com";
    assert_eq!(extract_kv_str(line, "msg"), Some("value with spaces".into()));
    assert_eq!(extract_kv_str(line, "host"), Some("example.com".into()));
}

#[test]
fn extract_kv_returns_none_for_absent_key() {
    let line = "host=example.com retry_after_secs=5";
    assert_eq!(extract_kv_str(line, "absent"), None);
    assert_eq!(extract_kv_u64(line, "absent"), None);
}

#[test]
fn extract_kv_rejects_malformed_numerics() {
    let line = "elapsed_ms=oops timeout_ms=not_a_number";
    assert_eq!(extract_kv_u64(line, "elapsed_ms"), None);
    assert_eq!(extract_kv_u64(line, "timeout_ms"), None);
}

#[test]
fn extract_kv_does_not_match_inside_a_longer_key() {
    let line = "prefixed_key=should_not_match key=found";
    assert_eq!(extract_kv_str(line, "key"), Some("found".into()));
}

#[test]
fn parse_log_ignores_blank_and_unknown_lines() {
    let log = "\n\n\
               2026-05-11T08:00:00.000Z INFO http.server msg=\"healthz ok\"\n\
               \n";
    assert!(parse_log(log).is_empty());
}

#[test]
fn parse_log_does_not_emit_phantom_tls_for_abort_line() {
    let log = "2026-05-11T08:11:40.142Z ERROR http.client msg=\"tls handshake failed\" peer=api.example.com error=\"certificate has expired\"\n\
               2026-05-11T08:11:40.156Z WARN  http.client msg=\"aborting request: tls handshake failed\" elapsed_ms=156";
    let ev = parse_log(log);
    assert_eq!(
        ev,
        vec![Evidence::TlsHandshakeFailed {
            peer: "api.example.com".into(),
            reason: "certificate has expired".into(),
        }],
        "abort line without `peer=` must not produce a second TlsHandshakeFailed"
    );
}

#[test]
fn parse_log_does_not_emit_phantom_dns_for_abort_line() {
    let log = "2026-05-11T08:08:20.140Z ERROR http.client msg=\"name resolution failed\" host=api.exmaple.com error=\"no such host\"\n\
               2026-05-11T08:08:20.142Z WARN  http.client msg=\"aborting request: name resolution failed\" elapsed_ms=142";
    let ev = parse_log(log);
    assert_eq!(
        ev,
        vec![Evidence::DnsResolutionFailed {
            host: "api.exmaple.com".into(),
            message: "no such host".into(),
        }],
        "abort line without `host=` must not produce a second DnsResolutionFailed"
    );
}

#[test]
fn extract_kv_parses_narrow_and_signed_numbers() {
    let line = "observed_rps=112 limit_rps=4294967296 drift_secs=-360 big=18446744073709551615";
    assert_eq!(extract_kv_u32(line, "observed_rps"), Some(112));
    assert_eq!(extract_kv_u32(line, "limit_rps"), None);
    assert_eq!(extract_kv_i64(line, "drift_secs"), Some(-360));
    assert_eq!(extract_kv_u64(line, "big"), Some(u64::MAX));
    assert_eq!(extract_kv_u64(line, "drift_secs"), None);
}

#[test]
fn extract_kv_handles_empty_and_unterminated_values() {
    assert_eq!(extract_kv_str("key= next=1", "key"), Some(String::new()));
    assert_eq!(extract_kv_str("msg=\"no end", "msg"), None);
    assert_eq!(extract_kv_str("msg=\"\" k=v", "msg"), Some(String::new()));
    assert_eq!(extract_kv_u64("n=+7", "n"), Some(7));
    assert_eq!(extract_kv_str("x=1\tkey=tab", "key"), Some("tab".into()));
}

#[test]
fn parse_log_stores_absolute_drift_and_default_messages() {
    let log = "drift_secs=-400 tolerance_secs=300\n\
               msg=\"name resolution failed\" host=h.example\n\
               msg=\"tls handshake failed\" peer=p.example\r\n\
               signature verification failed\n\
               body_mutated=true\n";
    let ev = parse_log(log);
    assert_eq!(
        ev,
        vec![
            Evidence::ClockDriftSecs {
                observed: 400,
                tolerance_secs: 300
            },
            Evidence::DnsResolutionFailed {
                host: "h.example".into(),
                message: "no such host".into(),
            },
            Evidence::TlsHandshakeFailed {
                peer: "p.example".into(),
                reason: "tls handshake failed".into(),
            },
            Evidence::SignatureMismatch,
            Evidence::BodyMutatedBeforeVerification,
        ]
    );
}

#[test]
fn parse_log_drops_exact_repeats() {
    let log = "reason=signature_mismatch\nreason=signature_mismatch\n\
               msg=\"upstream timeout\" elapsed_ms=10 timeout_ms=5\n\
               msg=\"upstream timeout\" elapsed_ms=10 timeout_ms=5";
    assert_eq!(
        parse_log(log),
        vec![
            Evidence::SignatureMismatch,
            Evidence::ConnectionTimeout {
                elapsed_ms: 10,
                timeout_ms: 5
            },
        ]
    );
}

#[test]
fn push_unique_skips_equal_items() {
    let mut v = vec![Evidence::HttpStatus(401)];
    push_unique(&mut v, Evidence::HttpStatus(401));
    push_unique(&mut v, Evidence::HttpStatus(429));
    assert_eq!(v, vec![Evidence::HttpStatus(401), Evidence::HttpStatus(429)]);
}

#[test]
fn is_redundant_with_matches_on_identifying_keys() {
    let existing = vec![
        Evidence::DnsResolutionFailed {
            host: "h".into(),
            message: "a".into(),
        },
        Evidence::JsonValidationError {
            field: Some("amount".into()),
            message: "x".into(),
        },
    ];
    let same_host = Evidence::DnsResolutionFailed {
        host: "h".into(),
        message: "b".into(),
    };
    let other_host = Evidence::DnsResolutionFailed {
        host: "g".into(),
        message: "a".into(),
    };
    let same_field = Evidence::JsonValidationError {
        field: Some("amount".into()),
        message: "y".into(),
    };
    let no_field = Evidence::JsonValidationError {
        field: None,
        message: "x".into(),
    };
    assert!(is_redundant_with(&existing, &same_host));
    assert!(!is_redundant_with(&existing, &other_host));
    assert!(is_redundant_with(&existing, &same_field));
    assert!(!is_redundant_with(&existing, &no_field));
    assert!(!is_redundant_with(&existing, &Evidence::HttpStatus(400)));
    assert!(is_redundant_with(&existing, &existing[0].clone()));
}

#[test]
fn validation_error_from_fields_requires_validation_code() {
    assert_eq!(
        validation_error_from_fields(
            Some("validation_failed".into()),
            Some("amount".into()),
            None
        ),
        Some(Evidence::JsonValidationError {
            field: Some("amount".into()),
            message: "validation failed".into(),
        })
    );
    assert_eq!(
        validation_error_from_fields(Some("unauthorized".into()), None, Some("m".into())),
        None
    );
    assert_eq!(validation_error_from_fields(None, None, None), None);
}

#[test]
fn parse_validation_error_body_reads_structured_errors() {
    let body = r#"{"error":{"code":"validation_failed","field":"amount","message":"Expected integer, got string."}}"#;
    assert_eq!(
        parse_validation_error_body(body),
        Some(Evidence::JsonValidationError {
            field: Some("amount".into()),
            message: "Expected integer, got string.".into(),
        })
    );
    let no_field = r#"{"error":{"code":"validation_failed"}}"#;
    assert_eq!(
        parse_validation_error_body(no_field),
        Some(Evidence::JsonValidationError {
            field: None,
            message: "validation failed".into(),
        })
    );
    assert_eq!(parse_validation_error_body(r#"{"error":"unauthorized"}"#), None);
    assert_eq!(parse_validation_error_body("not json"), None);
}

fn request(headers: Vec<(String, String)>, timeout_ms: Option<u64>) -> Request {
    Request {
        method: "POST".into(),
        url: "https://api.example.com/v1/charges".into(),
        headers,
        body_summary: String::new(),
        client_unix_ts: None,
        timeout_ms,
    }
}

fn case(request: Request, response: Option<Response>, context: Context) -> Case {
    Case {
        name: "c".into(),
        description: "d".into(),
        request,
        response,
        context,
        log_path: None,
    }
}

#[test]
fn collect_evidence_orders_sources_and_dedups_log_items() {
    let mut ctx = Context::default();
    ctx.dns_resolved = Some(false);
    ctx.dns_host = Some("api.exmaple.com".into());
    ctx.dns_error = Some("lookup failed".into());
    let c = case(request(vec![], None), None, ctx);
    let log = "msg=\"name resolution failed\" host=api.exmaple.com error=\"no such host\"\n\
               msg=\"name resolution failed\" host=other.example";
    let ev = collect_evidence(&c, log);
    assert_eq!(
        ev,
        vec![
            Evidence::DnsResolutionFailed {
                host: "api.exmaple.com".into(),
                message: "lookup failed".into(),
            },
            Evidence::HeaderMissing {
                name: "Authorization".into()
            },
            Evidence::DnsResolutionFailed {
                host: "other.example".into(),
                message: "no such host".into(),
            },
        ]
    );
}

#[test]
fn collect_evidence_reads_response_and_masks_authorization() {
    let resp = Response {
        status: 400,
        headers: vec![("Retry-After".into(), "30".into())],
        body_summary:
            r#"{"error":{"code":"validation_failed","field":"amount","message":"bad"}}"#.into(),
        server_unix_ts: None,
        elapsed_ms: None,
    };
    let c = case(
        request(vec![("Authorization".into(), "Bearer secret".into())], None),
        Some(resp),
        Context::default(),
    );
    let log = "msg=\"schema validation failed\" field=amount";
    let ev = collect_evidence(&c, log);
    assert_eq!(
        ev,
        vec![
            Evidence::HttpStatus(400),
            Evidence::RetryAfterSecs(30),
            Evidence::JsonValidationError {
                field: Some("amount".into()),
                message: "bad".into(),
            },
            Evidence::HeaderPresent {
                name: "Authorization".into(),
                value: Some("***".into()),
            },
        ]
    );
}

#[test]
fn collect_evidence_context_timeout_and_drift() {
    let mut ctx = Context::default();
    ctx.elapsed_ms_before_abort = Some(5012);
    ctx.client_clock_skew_secs = Some(-360);
    ctx.signature_tolerance_secs = Some(300);
    ctx.body_mutated_before_verification = Some(true);
    ctx.tls_handshake_failed = Some(true);
    let c = case(request(vec![], Some(5000)), None, ctx);
    let ev = collect_evidence(&c, "drift_secs=360 tolerance_secs=300");
    assert_eq!(
        ev,
        vec![
            Evidence::TlsHandshakeFailed {
                peer: "<unknown peer>".into(),
                reason: "tls handshake failed".into(),
            },
            Evidence::ConnectionTimeout {
                elapsed_ms: 5012,
                timeout_ms: 5000
            },
            Evidence::ClockDriftSecs {
                observed: 360,
                tolerance_secs: 300
            },
            Evidence::BodyMutatedBeforeVerification,
            Evidence::HeaderMissing {
                name: "Authorization".into()
            },
        ]
    );
}

#[test]
fn collect_evidence_skips_small_drift_and_early_abort() {
    let mut ctx = Context::default();
    ctx.elapsed_ms_before_abort = Some(10);
    ctx.client_clock_skew_secs = Some(300);
    ctx.signature_tolerance_secs = Some(300);
    let c = case(request(vec![], Some(5000)), None, ctx);
    let resp_status_only = collect_evidence(&c, "");
    assert_eq!(
        resp_status_only,
        vec![Evidence::HeaderMissing {
            name: "Authorization".into()
        }]
    );
}

#[test]
fn collect_evidence_ignores_non_numeric_retry_after() {
    let resp = Response {
        status: 429,
        headers: vec![("Retry-After".into(), "Wed, 21 Oct 2015 07:28:00 GMT".into())],
        body_summary: "{}".into(),
        server_unix_ts: None,
        elapsed_ms: None,
    };
    let c = case(request(vec![], None), Some(resp), Context::default());
    assert_eq!(
        collect_evidence(&c, ""),
        vec![
            Evidence::HttpStatus(429),
            Evidence::HeaderMissing {
                name: "Authorization".into()
            },
        ]
    );
}

#[test]
fn drift_range_checks_follow_what_the_collectors_accept() {
    assert!(log_drift_in_range("drift_secs=-360 tolerance_secs=300"));
    assert!(!log_drift_in_range(
        "ok\n  drift_secs=-9223372036854775808 tolerance_secs=300\n"
    ));
    assert!(!log_drift_in_range("drift_secs=-9223372036854775808 tolerance_secs=1"));
    assert!(log_drift_in_range("drift_secs=-9223372036854775808"));
    assert!(log_drift_in_range(""));

    let mut c = Context::default();
    c.client_clock_skew_secs = Some(i64::MIN);
    assert!(context_drift_in_range(&c));
    c.signature_tolerance_secs = Some(300);
    assert!(!context_drift_in_range(&c));
    c.signature_tolerance_secs = Some(u64::MAX);
    assert!(context_drift_in_range(&c));
    let case = case(request(vec![], None), None, c);
    assert_eq!(
        collect_evidence(&case, ""),
        vec![Evidence::HeaderMissing {
            name: "Authorization".into()
        }]
    );
}

#[test]
fn parse_log_skips_drift_within_tolerance() {
    assert!(parse_log("drift_secs=10 tolerance_secs=300").is_empty());
    assert!(parse_log("drift_secs=-300 tolerance_secs=300").is_empty());
    assert_eq!(
        parse_log("drift_secs=-301 tolerance_secs=300"),
        vec![Evidence::ClockDriftSecs {
            observed: 301,
            tolerance_secs: 300
        }]
    );
    let huge = "drift_secs=-9223372036854775808 tolerance_secs=18446744073709551615";
    assert!(log_drift_in_range(huge));
    assert!(parse_log(huge).is_empty());
}
