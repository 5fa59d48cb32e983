use llm_assisted_api_debugging_lab::prose::prose;

enum TemplateKind {
    Static,
    Host,
    Peer,
    OptionalField,
}

const TEMPLATE_BINDINGS: &[(&str, TemplateKind)] = &[
    ("dns_failure", TemplateKind::Host),
    ("tls_failure", TemplateKind::Peer),
    ("connection_timeout", TemplateKind::Static),
    ("webhook_signature", TemplateKind::Static),
    ("rate_limit", TemplateKind::Static),
    ("auth_missing", TemplateKind::Static),
    ("bad_payload", TemplateKind::OptionalField),
    ("unknown", TemplateKind::Static),
];

#[test]
fn prose_parses() {
    let _ = prose();
}

#[test]
fn every_rule_named_in_diagnose_has_prose() {
    let p = prose();
    for (rule, _) in TEMPLATE_BINDINGS {
        let _ = p.rule(rule);
    }
}

#[test]
fn every_rule_template_kind_matches_its_call_site() {
    let p = prose();
    for (rule, kind) in TEMPLATE_BINDINGS {
        let entry = p.rule(rule);
        let rendered = match kind {
            TemplateKind::Static => entry.likely_cause_static().to_string(),
            TemplateKind::Host => entry.likely_cause_with_host("example.test"),
            TemplateKind::Peer => entry.likely_cause_with_peer("example.test"),
            TemplateKind::OptionalField => {
                let with = entry.likely_cause_with_optional_field(Some("field_name"));
                let without = entry.likely_cause_with_optional_field(None);
                assert!(!with.is_empty(), "{rule}: with-field template empty");
                assert!(!without.is_empty(), "{rule}: no-field template empty");
                with
            }
        };
        assert!(!rendered.is_empty(), "{rule}: rendered likely_cause empty");
    }
}

#[test]
fn templates_substitute_every_placeholder() {
    let p = prose();
    let dns = p.rule("dns_failure").likely_cause_with_host("h.example");
    assert!(dns.contains("h.example") && !dns.contains("{host}"));
    let tls = p.rule("tls_failure").likely_cause_with_peer("p.example");
    assert!(tls.contains("p.example") && !tls.contains("{peer}"));
    let with = p
        .rule("bad_payload")
        .likely_cause_with_optional_field(Some("amount"));
    assert!(with.contains("`amount`") && !with.contains("{field}"));
}

#[test]
fn every_rule_has_lists_and_notes() {
    let p = prose();
    for (rule, _) in TEMPLATE_BINDINGS {
        let e = p.rule(rule);
        assert!(!e.severity_rationale.is_empty(), "{rule}");
        assert!(!e.escalation_note.is_empty(), "{rule}");
        assert!(!e.hypotheses.is_empty() || *rule == "unknown", "{rule}");
    }
}
