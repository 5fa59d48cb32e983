//! Per-rule prose: likely-cause text and templates, hypotheses, unknowns,
//! next steps, escalation notes and severity rationales.
//!
//! The rules engine refers to prose by rule name only, so editorial changes
//! stay out of the rule logic. [`prose`] builds the table the engine uses.

use vstd::prelude::*;
use crate::text::{opt_view, owned, replace, replace_all, str_equal, strs_view};

verus! {

/// Per-rule prose entry. Each rule uses exactly one kind of likely-cause
/// text: `likely_cause` (static), `likely_cause_template` (with a `{host}`
/// or `{peer}` placeholder), or the pair of field templates.
#[derive(Debug)]
pub struct RuleProse {
    pub severity_rationale: String,
    pub likely_cause: Option<String>,
    pub likely_cause_template: Option<String>,
    pub likely_cause_template_with_field: Option<String>,
    pub likely_cause_template_no_field: Option<String>,
    pub hypotheses: Vec<String>,
    pub unknowns: Vec<String>,
    pub next_steps: Vec<String>,
    pub escalation_note: String,
}

/// The value of a [`RuleProse`]: strings as character sequences.
pub struct RuleProseV {
    pub severity_rationale: Seq<char>,
    pub likely_cause: Option<Seq<char>>,
    pub likely_cause_template: Option<Seq<char>>,
    pub likely_cause_template_with_field: Option<Seq<char>>,
    pub likely_cause_template_no_field: Option<Seq<char>>,
    pub hypotheses: Seq<Seq<char>>,
    pub unknowns: Seq<Seq<char>>,
    pub next_steps: Seq<Seq<char>>,
    pub escalation_note: Seq<char>,
}

impl View for RuleProse {
    type V = RuleProseV;

    open spec fn view(&self) -> RuleProseV {
        RuleProseV {
            severity_rationale: self.severity_rationale@,
            likely_cause: opt_view(self.likely_cause),
            likely_cause_template: opt_view(self.likely_cause_template),
            likely_cause_template_with_field: opt_view(self.likely_cause_template_with_field),
            likely_cause_template_no_field: opt_view(self.likely_cause_template_no_field),
            hypotheses: strs_view(self.hypotheses@),
            unknowns: strs_view(self.unknowns@),
            next_steps: strs_view(self.next_steps@),
            escalation_note: self.escalation_note@,
        }
    }
}

/// The prose table: one entry per rule name.
#[derive(Debug)]
pub struct Prose {
    rules: Vec<(String, RuleProse)>,
}

impl View for Prose {
    type V = Seq<(Seq<char>, RuleProseV)>;

    closed spec fn view(&self) -> Seq<(Seq<char>, RuleProseV)> {
        self.rules@.map_values(|e: (String, RuleProse)| (e.0@, e.1@))
    }
}

/// The index of the first entry at or after `i` named `name`.
pub open spec fn entry_index(p: Seq<(Seq<char>, RuleProseV)>, name: Seq<char>, i: int) -> Option<int>
    decreases p.len() - i,
{
    if i < 0 || i >= p.len() {
        None
    } else if p[i].0 == name {
        Some(i)
    } else {
        entry_index(p, name, i + 1)
    }
}

/// The table has an entry for `name`.
pub open spec fn has_rule(p: Seq<(Seq<char>, RuleProseV)>, name: Seq<char>) -> bool {
    entry_index(p, name, 0) is Some
}

/// The entry for `name`.
pub open spec fn rule_entry(p: Seq<(Seq<char>, RuleProseV)>, name: Seq<char>) -> RuleProseV {
    p[entry_index(p, name, 0)->0].1
}

/// Every rule the engine names has an entry with the kind of likely-cause
/// text its rule arm uses.
pub open spec fn prose_ready(p: Seq<(Seq<char>, RuleProseV)>) -> bool {
    &&& has_rule(p, "dns_failure"@)
    &&& rule_entry(p, "dns_failure"@).likely_cause_template is Some
    &&& has_rule(p, "tls_failure"@)
    &&& rule_entry(p, "tls_failure"@).likely_cause_template is Some
    &&& has_rule(p, "connection_timeout"@)
    &&& rule_entry(p, "connection_timeout"@).likely_cause is Some
    &&& has_rule(p, "webhook_signature"@)
    &&& rule_entry(p, "webhook_signature"@).likely_cause is Some
    &&& has_rule(p, "rate_limit"@)
    &&& rule_entry(p, "rate_limit"@).likely_cause is Some
    &&& has_rule(p, "auth_missing"@)
    &&& rule_entry(p, "auth_missing"@).likely_cause is Some
    &&& has_rule(p, "bad_payload"@)
    &&& rule_entry(p, "bad_payload"@).likely_cause_template_with_field is Some
    &&& rule_entry(p, "bad_payload"@).likely_cause_template_no_field is Some
    &&& has_rule(p, "unknown"@)
    &&& rule_entry(p, "unknown"@).likely_cause is Some
}

impl Prose {
    /// The entry for rule `name`.
    pub fn rule(&self, name: &str) -> (r: &RuleProse)
        requires
            has_rule(self@, name@),
        ensures
            r@ == rule_entry(self@, name@),
    {
        let mut i: usize = 0;
        while i < self.rules.len()
            invariant
                i <= self.rules.len(),
                entry_index(self@, name@, 0) == entry_index(self@, name@, i as int),
                entry_index(self@, name@, 0) is Some,
            decreases self.rules.len() - i,
        {
            assert(self@[i as int].0 == self.rules@[i as int].0@);
            if str_equal(self.rules[i].0.as_str(), name) {
                return &self.rules[i].1;
            }
            i = i + 1;
        }
        proof {
            assert(false);
        }
        &self.rules[0].1
    }
}

impl RuleProse {
    /// Static likely-cause text for rules that don't interpolate fields.
    pub fn likely_cause_static(&self) -> (r: &str)
        requires
            self@.likely_cause is Some,
        ensures
            r@ == self@.likely_cause->0,
    {
        match &self.likely_cause {
            Some(s) => s.as_str(),
            None => {
                proof {
                    assert(false);
                }
                ""
            },
        }
    }

    /// Likely-cause text with every `{host}` replaced by `host`.
    pub fn likely_cause_with_host(&self, host: &str) -> (r: String)
        requires
            self@.likely_cause_template is Some,
        ensures
            r@ == replace_all(self@.likely_cause_template->0, "{host}"@, host@),
    {
        proof {
            reveal_strlit("{host}");
        }
        match &self.likely_cause_template {
            Some(t) => replace(t.as_str(), "{host}", host),
            None => {
                proof {
                    assert(false);
                }
                String::new()
            },
        }
    }

    /// Likely-cause text with every `{peer}` replaced by `peer`.
    pub fn likely_cause_with_peer(&self, peer: &str) -> (r: String)
        requires
            self@.likely_cause_template is Some,
        ensures
            r@ == replace_all(self@.likely_cause_template->0, "{peer}"@, peer@),
    {
        proof {
            reveal_strlit("{peer}");
        }
        match &self.likely_cause_template {
            Some(t) => replace(t.as_str(), "{peer}", peer),
            None => {
                proof {
                    assert(false);
                }
                String::new()
            },
        }
    }

    /// Likely-cause text for rules where the validated field may or may not
    /// be known: the with-field template with every `{field}` replaced, or
    /// the no-field template.
    pub fn likely_cause_with_optional_field(&self, field: Option<&str>) -> (r: String)
        requires
            field is Some ==> self@.likely_cause_template_with_field is Some,
            field is None ==> self@.likely_cause_template_no_field is Some,
        ensures
            r@ == match field {
                Some(f) => replace_all(
                    self@.likely_cause_template_with_field->0,
                    "{field}"@,
                    f@,
                ),
                None => self@.likely_cause_template_no_field->0,
            },
    {
        proof {
            reveal_strlit("{field}");
        }
        match field {
            Some(f) => match &self.likely_cause_template_with_field {
                Some(t) => replace(t.as_str(), "{field}", f),
                None => {
                    proof {
                        assert(false);
                    }
                    String::new()
                },
            },
            None => match &self.likely_cause_template_no_field {
                Some(t) => t.clone(),
                None => {
                    proof {
                        assert(false);
                    }
                    String::new()
                },
            },
        }
    }
}
/// The built-in prose for rule `dns_failure`.
pub open spec fn dns_failure_prose() -> RuleProseV {
    RuleProseV {
        severity_rationale: "name resolution failed before any traffic was sent; no application-level diagnosis is possible until DNS is restored"@,
        likely_cause: None,
        likely_cause_template: Some("DNS resolution failed for `{host}`; the request never left the client."@),
        likely_cause_template_with_field: None,
        likely_cause_template_no_field: None,
        hypotheses: seq!["The configured API hostname is misspelled."@, "The client's DNS resolver cannot reach an authoritative server."@, "A recent DNS change has not propagated to the client's resolver."@],
        unknowns: seq!["Whether the hostname was recently changed in client configuration."@, "Which resolver the client host is using."@, "Whether other hostnames resolve from the same machine."@],
        next_steps: seq!["Compare the configured hostname character by character with the documented API hostname."@, "Run a lookup for the hostname from the affected host and from a known-good network."@, "Check recent changes to the configured API base URL."@, "Retry once the hostname resolves; no server-side investigation is possible before then."@],
        escalation_note: "Connection failed at name resolution; no request reached the API. Treat this as a client-side configuration or network issue until a lookup from the affected host succeeds."@,
    }
}
fn build_dns_failure() -> (r: RuleProse)
    ensures
        r@ == dns_failure_prose(),
{
    let mut hypotheses: Vec<String> = Vec::new();
    hypotheses.push(owned("The configured API hostname is misspelled."));
    hypotheses.push(owned("The client's DNS resolver cannot reach an authoritative server."));
    hypotheses.push(owned("A recent DNS change has not propagated to the client's resolver."));
    assert(strs_view(hypotheses@) =~= seq!["The configured API hostname is misspelled."@, "The client's DNS resolver cannot reach an authoritative server."@, "A recent DNS change has not propagated to the client's resolver."@]);
    let mut unknowns: Vec<String> = Vec::new();
    unknowns.push(owned("Whether the hostname was recently changed in client configuration."));
    unknowns.push(owned("Which resolver the client host is using."));
    unknowns.push(owned("Whether other hostnames resolve from the same machine."));
    assert(strs_view(unknowns@) =~= seq!["Whether the hostname was recently changed in client configuration."@, "Which resolver the client host is using."@, "Whether other hostnames resolve from the same machine."@]);
    let mut next_steps: Vec<String> = Vec::new();
    next_steps.push(owned("Compare the configured hostname character by character with the documented API hostname."));
    next_steps.push(owned("Run a lookup for the hostname from the affected host and from a known-good network."));
    next_steps.push(owned("Check recent changes to the configured API base URL."));
    next_steps.push(owned("Retry once the hostname resolves; no server-side investigation is possible before then."));
    assert(strs_view(next_steps@) =~= seq!["Compare the configured hostname character by character with the documented API hostname."@, "Run a lookup for the hostname from the affected host and from a known-good network."@, "Check recent changes to the configured API base URL."@, "Retry once the hostname resolves; no server-side investigation is possible before then."@]);
    RuleProse {
        severity_rationale: owned("name resolution failed before any traffic was sent; no application-level diagnosis is possible until DNS is restored"),
        likely_cause: None,
        likely_cause_template: Some(owned("DNS resolution failed for `{host}`; the request never left the client.")),
        likely_cause_template_with_field: None,
        likely_cause_template_no_field: None,
        hypotheses,
        unknowns,
        next_steps,
        escalation_note: owned("Connection failed at name resolution; no request reached the API. Treat this as a client-side configuration or network issue until a lookup from the affected host succeeds."),
    }
}
/// The built-in prose for rule `tls_failure`.
pub open spec fn tls_failure_prose() -> RuleProseV {
    RuleProseV {
        severity_rationale: "the TLS handshake failed, so no HTTP request was transmitted and there is no application-level evidence to reason about"@,
        likely_cause: None,
        likely_cause_template: Some("TLS handshake with `{peer}` failed before any HTTP request was sent."@),
        likely_cause_template_with_field: None,
        likely_cause_template_no_field: None,
        hypotheses: seq!["The server certificate presented to the client has expired."@, "The client's trust store is missing the issuing certificate authority."@, "A proxy on the client's network path is intercepting TLS."@],
        unknowns: seq!["Which certificate chain the client actually received."@, "Whether the client's trust store was updated recently."@, "Whether a TLS-intercepting proxy sits between the client and the API."@],
        next_steps: seq!["Capture the certificate chain the client receives from the peer."@, "Check the validity dates of every certificate in that chain."@, "Confirm that the client's trust store includes the issuing authority."@, "Retry from a network path without an intercepting proxy."@],
        escalation_note: "Transport failed during the TLS handshake; no HTTP request was sent. Verify the certificate chain seen by the client before investigating the API itself."@,
    }
}
fn build_tls_failure() -> (r: RuleProse)
    ensures
        r@ == tls_failure_prose(),
{
    let mut hypotheses: Vec<String> = Vec::new();
    hypotheses.push(owned("The server certificate presented to the client has expired."));
    hypotheses.push(owned("The client's trust store is missing the issuing certificate authority."));
    hypotheses.push(owned("A proxy on the client's network path is intercepting TLS."));
    assert(strs_view(hypotheses@) =~= seq!["The server certificate presented to the client has expired."@, "The client's trust store is missing the issuing certificate authority."@, "A proxy on the client's network path is intercepting TLS."@]);
    let mut unknowns: Vec<String> = Vec::new();
    unknowns.push(owned("Which certificate chain the client actually received."));
    unknowns.push(owned("Whether the client's trust store was updated recently."));
    unknowns.push(owned("Whether a TLS-intercepting proxy sits between the client and the API."));
    assert(strs_view(unknowns@) =~= seq!["Which certificate chain the client actually received."@, "Whether the client's trust store was updated recently."@, "Whether a TLS-intercepting proxy sits between the client and the API."@]);
    let mut next_steps: Vec<String> = Vec::new();
    next_steps.push(owned("Capture the certificate chain the client receives from the peer."));
    next_steps.push(owned("Check the validity dates of every certificate in that chain."));
    next_steps.push(owned("Confirm that the client's trust store includes the issuing authority."));
    next_steps.push(owned("Retry from a network path without an intercepting proxy."));
    assert(strs_view(next_steps@) =~= seq!["Capture the certificate chain the client receives from the peer."@, "Check the validity dates of every certificate in that chain."@, "Confirm that the client's trust store includes the issuing authority."@, "Retry from a network path without an intercepting proxy."@]);
    RuleProse {
        severity_rationale: owned("the TLS handshake failed, so no HTTP request was transmitted and there is no application-level evidence to reason about"),
        likely_cause: None,
        likely_cause_template: Some(owned("TLS handshake with `{peer}` failed before any HTTP request was sent.")),
        likely_cause_template_with_field: None,
        likely_cause_template_no_field: None,
        hypotheses,
        unknowns,
        next_steps,
        escalation_note: owned("Transport failed during the TLS handshake; no HTTP request was sent. Verify the certificate chain seen by the client before investigating the API itself."),
    }
}
/// The built-in prose for rule `connection_timeout`.
pub open spec fn connection_timeout_prose() -> RuleProseV {
    RuleProseV {
        severity_rationale: "the client aborted before any response arrived, but the request can still be correlated with server-side traces"@,
        likely_cause: Some("The client gave up waiting for a response after its configured timeout elapsed."@),
        likely_cause_template: None,
        likely_cause_template_with_field: None,
        likely_cause_template_no_field: None,
        hypotheses: seq!["The upstream service was slow to respond to this request."@, "The client timeout budget is shorter than the endpoint's typical latency."@, "Network congestion delayed the response."@],
        unknowns: seq!["Whether the server completed the request after the client aborted."@, "The endpoint's latency at the time of the request."@, "Whether retries were attempted, and with what outcome."@],
        next_steps: seq!["Look up the request_id in server-side traces to see whether the request completed."@, "Compare the client timeout with the endpoint's documented latency."@, "Check whether the request is safe to retry with an idempotency key."@, "Retry with backoff if the operation is idempotent."@],
        escalation_note: "Client-side timeout with no response received. Correlate the request_id with server traces before attributing the delay to either side."@,
    }
}
fn build_connection_timeout() -> (r: RuleProse)
    ensures
        r@ == connection_timeout_prose(),
{
    let mut hypotheses: Vec<String> = Vec::new();
    hypotheses.push(owned("The upstream service was slow to respond to this request."));
    hypotheses.push(owned("The client timeout budget is shorter than the endpoint's typical latency."));
    hypotheses.push(owned("Network congestion delayed the response."));
    assert(strs_view(hypotheses@) =~= seq!["The upstream service was slow to respond to this request."@, "The client timeout budget is shorter than the endpoint's typical latency."@, "Network congestion delayed the response."@]);
    let mut unknowns: Vec<String> = Vec::new();
    unknowns.push(owned("Whether the server completed the request after the client aborted."));
    unknowns.push(owned("The endpoint's latency at the time of the request."));
    unknowns.push(owned("Whether retries were attempted, and with what outcome."));
    assert(strs_view(unknowns@) =~= seq!["Whether the server completed the request after the client aborted."@, "The endpoint's latency at the time of the request."@, "Whether retries were attempted, and with what outcome."@]);
    let mut next_steps: Vec<String> = Vec::new();
    next_steps.push(owned("Look up the request_id in server-side traces to see whether the request completed."));
    next_steps.push(owned("Compare the client timeout with the endpoint's documented latency."));
    next_steps.push(owned("Check whether the request is safe to retry with an idempotency key."));
    next_steps.push(owned("Retry with backoff if the operation is idempotent."));
    assert(strs_view(next_steps@) =~= seq!["Look up the request_id in server-side traces to see whether the request completed."@, "Compare the client timeout with the endpoint's documented latency."@, "Check whether the request is safe to retry with an idempotency key."@, "Retry with backoff if the operation is idempotent."@]);
    RuleProse {
        severity_rationale: owned("the client aborted before any response arrived, but the request can still be correlated with server-side traces"),
        likely_cause: Some(owned("The client gave up waiting for a response after its configured timeout elapsed.")),
        likely_cause_template: None,
        likely_cause_template_with_field: None,
        likely_cause_template_no_field: None,
        hypotheses,
        unknowns,
        next_steps,
        escalation_note: owned("Client-side timeout with no response received. Correlate the request_id with server traces before attributing the delay to either side."),
    }
}
/// The built-in prose for rule `webhook_signature`.
pub open spec fn webhook_signature_prose() -> RuleProseV {
    RuleProseV {
        severity_rationale: "silent integration failure that breaks downstream automation; failures often go unnoticed"@,
        likely_cause: Some("Inbound webhook failed HMAC signature verification."@),
        likely_cause_template: None,
        likely_cause_template_with_field: None,
        likely_cause_template_no_field: None,
        hypotheses: seq!["Signing secret was rotated on one side only."@, "Request body was re-encoded by middleware before HMAC computation."@, "Client/server clock drift exceeds the signature tolerance window."@],
        unknowns: seq!["Whether the signing secret was rotated recently."@, "Whether middleware in the customer's stack mutates the raw body."@, "NTP / clock-sync state on the customer's webhook receiver."@],
        next_steps: seq!["Confirm that both sides use the same, current signing secret."@, "Compute the HMAC over the raw request body, before any JSON parsing."@, "Check clock synchronization on the webhook receiver."@, "Replay the webhook once the verification path is fixed."@],
        escalation_note: "Webhook delivery was rejected because the HMAC signature did not verify. Separate the hypotheses with data from the customer before recommending a fix; none can be promoted to root cause from the current evidence."@,
    }
}
fn build_webhook_signature() -> (r: RuleProse)
    ensures
        r@ == webhook_signature_prose(),
{
    let mut hypotheses: Vec<String> = Vec::new();
    hypotheses.push(owned("Signing secret was rotated on one side only."));
    hypotheses.push(owned("Request body was re-encoded by middleware before HMAC computation."));
    hypotheses.push(owned("Client/server clock drift exceeds the signature tolerance window."));
    assert(strs_view(hypotheses@) =~= seq!["Signing secret was rotated on one side only."@, "Request body was re-encoded by middleware before HMAC computation."@, "Client/server clock drift exceeds the signature tolerance window."@]);
    let mut unknowns: Vec<String> = Vec::new();
    unknowns.push(owned("Whether the signing secret was rotated recently."));
    unknowns.push(owned("Whether middleware in the customer's stack mutates the raw body."));
    unknowns.push(owned("NTP / clock-sync state on the customer's webhook receiver."));
    assert(strs_view(unknowns@) =~= seq!["Whether the signing secret was rotated recently."@, "Whether middleware in the customer's stack mutates the raw body."@, "NTP / clock-sync state on the customer's webhook receiver."@]);
    let mut next_steps: Vec<String> = Vec::new();
    next_steps.push(owned("Confirm that both sides use the same, current signing secret."));
    next_steps.push(owned("Compute the HMAC over the raw request body, before any JSON parsing."));
    next_steps.push(owned("Check clock synchronization on the webhook receiver."));
    next_steps.push(owned("Replay the webhook once the verification path is fixed."));
    assert(strs_view(next_steps@) =~= seq!["Confirm that both sides use the same, current signing secret."@, "Compute the HMAC over the raw request body, before any JSON parsing."@, "Check clock synchronization on the webhook receiver."@, "Replay the webhook once the verification path is fixed."@]);
    RuleProse {
        severity_rationale: owned("silent integration failure that breaks downstream automation; failures often go unnoticed"),
        likely_cause: Some(owned("Inbound webhook failed HMAC signature verification.")),
        likely_cause_template: None,
        likely_cause_template_with_field: None,
        likely_cause_template_no_field: None,
        hypotheses,
        unknowns,
        next_steps,
        escalation_note: owned("Webhook delivery was rejected because the HMAC signature did not verify. Separate the hypotheses with data from the customer before recommending a fix; none can be promoted to root cause from the current evidence."),
    }
}
/// The built-in prose for rule `rate_limit`.
pub open spec fn rate_limit_prose() -> RuleProseV {
    RuleProseV {
        severity_rationale: "expected back-pressure rather than a service fault; the server told the client when to retry"@,
        likely_cause: Some("The client exceeded its request rate limit and was told to retry later."@),
        likely_cause_template: None,
        likely_cause_template_with_field: None,
        likely_cause_template_no_field: None,
        hypotheses: seq!["A burst of requests exceeded the account's per-second limit."@, "Client retries without backoff amplified the request rate."@, "Several processes share one API key and its limit."@],
        unknowns: seq!["How many clients share the API key."@, "Whether the client honours the Retry-After header."@, "Whether the burst was expected traffic or a retry loop."@],
        next_steps: seq!["Honour the Retry-After header before retrying."@, "Add exponential backoff with jitter to the client's retry path."@, "Spread bursty workloads over time or queue them."@, "Request a higher limit if sustained traffic requires it."@],
        escalation_note: "Requests were throttled with 429 and a Retry-After value. This is expected back-pressure; check the client's retry behaviour before treating it as an incident."@,
    }
}
fn build_rate_limit() -> (r: RuleProse)
    ensures
        r@ == rate_limit_prose(),
{
    let mut hypotheses: Vec<String> = Vec::new();
    hypotheses.push(owned("A burst of requests exceeded the account's per-second limit."));
    hypotheses.push(owned("Client retries without backoff amplified the request rate."));
    hypotheses.push(owned("Several processes share one API key and its limit."));
    assert(strs_view(hypotheses@) =~= seq!["A burst of requests exceeded the account's per-second limit."@, "Client retries without backoff amplified the request rate."@, "Several processes share one API key and its limit."@]);
    let mut unknowns: Vec<String> = Vec::new();
    unknowns.push(owned("How many clients share the API key."));
    unknowns.push(owned("Whether the client honours the Retry-After header."));
    unknowns.push(owned("Whether the burst was expected traffic or a retry loop."));
    assert(strs_view(unknowns@) =~= seq!["How many clients share the API key."@, "Whether the client honours the Retry-After header."@, "Whether the burst was expected traffic or a retry loop."@]);
    let mut next_steps: Vec<String> = Vec::new();
    next_steps.push(owned("Honour the Retry-After header before retrying."));
    next_steps.push(owned("Add exponential backoff with jitter to the client's retry path."));
    next_steps.push(owned("Spread bursty workloads over time or queue them."));
    next_steps.push(owned("Request a higher limit if sustained traffic requires it."));
    assert(strs_view(next_steps@) =~= seq!["Honour the Retry-After header before retrying."@, "Add exponential backoff with jitter to the client's retry path."@, "Spread bursty workloads over time or queue them."@, "Request a higher limit if sustained traffic requires it."@]);
    RuleProse {
        severity_rationale: owned("expected back-pressure rather than a service fault; the server told the client when to retry"),
        likely_cause: Some(owned("The client exceeded its request rate limit and was told to retry later.")),
        likely_cause_template: None,
        likely_cause_template_with_field: None,
        likely_cause_template_no_field: None,
        hypotheses,
        unknowns,
        next_steps,
        escalation_note: owned("Requests were throttled with 429 and a Retry-After value. This is expected back-pressure; check the client's retry behaviour before treating it as an incident."),
    }
}
/// The built-in prose for rule `auth_missing`.
pub open spec fn auth_missing_prose() -> RuleProseV {
    RuleProseV {
        severity_rationale: "the request was rejected at the auth boundary, and the cause is almost always client-side configuration"@,
        likely_cause: Some("The request was sent without an Authorization header."@),
        likely_cause_template: None,
        likely_cause_template_with_field: None,
        likely_cause_template_no_field: None,
        hypotheses: seq!["The environment variable holding the API key is unset."@, "A secret manager did not load the key before the request was made."@, "A proxy stripped the Authorization header."@],
        unknowns: seq!["Where the client reads its API key from."@, "Whether a proxy sits between the client and the API."@, "Whether other requests from the same client carry the header."@],
        next_steps: seq!["Check that the API key is present in the client's runtime environment."@, "Log outgoing request headers (masked) at the client to confirm the header is sent."@, "Inspect any proxy configuration for header stripping."@, "Retry the request with the Authorization header set."@],
        escalation_note: "401 with no Authorization header on the request. Treat this as client configuration until the client confirms the header is being sent."@,
    }
}
fn build_auth_missing() -> (r: RuleProse)
    ensures
        r@ == auth_missing_prose(),
{
    let mut hypotheses: Vec<String> = Vec::new();
    hypotheses.push(owned("The environment variable holding the API key is unset."));
    hypotheses.push(owned("A secret manager did not load the key before the request was made."));
    hypotheses.push(owned("A proxy stripped the Authorization header."));
    assert(strs_view(hypotheses@) =~= seq!["The environment variable holding the API key is unset."@, "A secret manager did not load the key before the request was made."@, "A proxy stripped the Authorization header."@]);
    let mut unknowns: Vec<String> = Vec::new();
    unknowns.push(owned("Where the client reads its API key from."));
    unknowns.push(owned("Whether a proxy sits between the client and the API."));
    unknowns.push(owned("Whether other requests from the same client carry the header."));
    assert(strs_view(unknowns@) =~= seq!["Where the client reads its API key from."@, "Whether a proxy sits between the client and the API."@, "Whether other requests from the same client carry the header."@]);
    let mut next_steps: Vec<String> = Vec::new();
    next_steps.push(owned("Check that the API key is present in the client's runtime environment."));
    next_steps.push(owned("Log outgoing request headers (masked) at the client to confirm the header is sent."));
    next_steps.push(owned("Inspect any proxy configuration for header stripping."));
    next_steps.push(owned("Retry the request with the Authorization header set."));
    assert(strs_view(next_steps@) =~= seq!["Check that the API key is present in the client's runtime environment."@, "Log outgoing request headers (masked) at the client to confirm the header is sent."@, "Inspect any proxy configuration for header stripping."@, "Retry the request with the Authorization header set."@]);
    RuleProse {
        severity_rationale: owned("the request was rejected at the auth boundary, and the cause is almost always client-side configuration"),
        likely_cause: Some(owned("The request was sent without an Authorization header.")),
        likely_cause_template: None,
        likely_cause_template_with_field: None,
        likely_cause_template_no_field: None,
        hypotheses,
        unknowns,
        next_steps,
        escalation_note: owned("401 with no Authorization header on the request. Treat this as client configuration until the client confirms the header is being sent."),
    }
}
/// The built-in prose for rule `bad_payload`.
pub open spec fn bad_payload_prose() -> RuleProseV {
    RuleProseV {
        severity_rationale: "a single request failed validation; the client has what it needs to fix it and retry, and nothing else is affected"@,
        likely_cause: None,
        likely_cause_template: None,
        likely_cause_template_with_field: Some("The request body failed schema validation on field `{field}`."@),
        likely_cause_template_no_field: Some("The request body failed schema validation."@),
        hypotheses: seq!["The client serialized a field with the wrong type."@, "The client was built against an older version of the request schema."@, "A required field was omitted or renamed."@],
        unknowns: seq!["Which client version produced the request."@, "Whether the same payload shape succeeded before."@, "Whether other fields would also fail once this one is fixed."@],
        next_steps: seq!["Compare the failing field with the documented request schema."@, "Fix the field's type or value in the client and resend."@, "Validate payloads against the schema before sending them."@],
        escalation_note: "400 with a structured validation error. The fix is on the client side; no server-side action is needed unless the schema changed unexpectedly."@,
    }
}
fn build_bad_payload() -> (r: RuleProse)
    ensures
        r@ == bad_payload_prose(),
{
    let mut hypotheses: Vec<String> = Vec::new();
    hypotheses.push(owned("The client serialized a field with the wrong type."));
    hypotheses.push(owned("The client was built against an older version of the request schema."));
    hypotheses.push(owned("A required field was omitted or renamed."));
    assert(strs_view(hypotheses@) =~= seq!["The client serialized a field with the wrong type."@, "The client was built against an older version of the request schema."@, "A required field was omitted or renamed."@]);
    let mut unknowns: Vec<String> = Vec::new();
    unknowns.push(owned("Which client version produced the request."));
    unknowns.push(owned("Whether the same payload shape succeeded before."));
    unknowns.push(owned("Whether other fields would also fail once this one is fixed."));
    assert(strs_view(unknowns@) =~= seq!["Which client version produced the request."@, "Whether the same payload shape succeeded before."@, "Whether other fields would also fail once this one is fixed."@]);
    let mut next_steps: Vec<String> = Vec::new();
    next_steps.push(owned("Compare the failing field with the documented request schema."));
    next_steps.push(owned("Fix the field's type or value in the client and resend."));
    next_steps.push(owned("Validate payloads against the schema before sending them."));
    assert(strs_view(next_steps@) =~= seq!["Compare the failing field with the documented request schema."@, "Fix the field's type or value in the client and resend."@, "Validate payloads against the schema before sending them."@]);
    RuleProse {
        severity_rationale: owned("a single request failed validation; the client has what it needs to fix it and retry, and nothing else is affected"),
        likely_cause: None,
        likely_cause_template: None,
        likely_cause_template_with_field: Some(owned("The request body failed schema validation on field `{field}`.")),
        likely_cause_template_no_field: Some(owned("The request body failed schema validation.")),
        hypotheses,
        unknowns,
        next_steps,
        escalation_note: owned("400 with a structured validation error. The fix is on the client side; no server-side action is needed unless the schema changed unexpectedly."),
    }
}
/// The built-in prose for rule `unknown`.
pub open spec fn unknown_prose() -> RuleProseV {
    RuleProseV {
        severity_rationale: "no rule matched, so the diagnoser has no basis for a higher rank; this does not mean the failure is benign"@,
        likely_cause: Some("Evidence does not match any built-in rule; no cause is assigned."@),
        likely_cause_template: None,
        likely_cause_template_with_field: None,
        likely_cause_template_no_field: None,
        hypotheses: Seq::<Seq<char>>::empty(),
        unknowns: seq!["Which failure mode produced this evidence."@],
        next_steps: seq!["Review the evidence listed above by hand."@, "Add a fixture that reproduces this evidence shape."@, "Add a rule for this evidence shape before claiming a diagnosis."@],
        escalation_note: "No built-in rule matched this evidence. Do not assign a cause; escalate with the evidence attached."@,
    }
}
fn build_unknown() -> (r: RuleProse)
    ensures
        r@ == unknown_prose(),
{
    let mut hypotheses: Vec<String> = Vec::new();
    assert(strs_view(hypotheses@) =~= Seq::<Seq<char>>::empty());
    let mut unknowns: Vec<String> = Vec::new();
    unknowns.push(owned("Which failure mode produced this evidence."));
    assert(strs_view(unknowns@) =~= seq!["Which failure mode produced this evidence."@]);
    let mut next_steps: Vec<String> = Vec::new();
    next_steps.push(owned("Review the evidence listed above by hand."));
    next_steps.push(owned("Add a fixture that reproduces this evidence shape."));
    next_steps.push(owned("Add a rule for this evidence shape before claiming a diagnosis."));
    assert(strs_view(next_steps@) =~= seq!["Review the evidence listed above by hand."@, "Add a fixture that reproduces this evidence shape."@, "Add a rule for this evidence shape before claiming a diagnosis."@]);
    RuleProse {
        severity_rationale: owned("no rule matched, so the diagnoser has no basis for a higher rank; this does not mean the failure is benign"),
        likely_cause: Some(owned("Evidence does not match any built-in rule; no cause is assigned.")),
        likely_cause_template: None,
        likely_cause_template_with_field: None,
        likely_cause_template_no_field: None,
        hypotheses,
        unknowns,
        next_steps,
        escalation_note: owned("No built-in rule matched this evidence. Do not assign a cause; escalate with the evidence attached."),
    }
}
/// The built-in prose table, one entry per rule, in rule order.
pub open spec fn builtin_prose() -> Seq<(Seq<char>, RuleProseV)> {
    seq![
        ("dns_failure"@, dns_failure_prose()),
        ("tls_failure"@, tls_failure_prose()),
        ("connection_timeout"@, connection_timeout_prose()),
        ("webhook_signature"@, webhook_signature_prose()),
        ("rate_limit"@, rate_limit_prose()),
        ("auth_missing"@, auth_missing_prose()),
        ("bad_payload"@, bad_payload_prose()),
        ("unknown"@, unknown_prose()),
    ]
}

/// The prose table the rules engine uses.
pub fn prose() -> (p: Prose)
    ensures
        p@ == builtin_prose(),
        prose_ready(p@),
{
    let mut rules: Vec<(String, RuleProse)> = Vec::new();
    rules.push((owned("dns_failure"), build_dns_failure()));
    rules.push((owned("tls_failure"), build_tls_failure()));
    rules.push((owned("connection_timeout"), build_connection_timeout()));
    rules.push((owned("webhook_signature"), build_webhook_signature()));
    rules.push((owned("rate_limit"), build_rate_limit()));
    rules.push((owned("auth_missing"), build_auth_missing()));
    rules.push((owned("bad_payload"), build_bad_payload()));
    rules.push((owned("unknown"), build_unknown()));
    let p = Prose { rules };
    assert(p@ =~= builtin_prose());
    proof {
        lemma_builtin_prose_ready();
    }
    p
}

/// The built-in table has every entry the rules engine looks up.
pub proof fn lemma_builtin_prose_ready()
    ensures
        prose_ready(builtin_prose()),
{
    reveal_strlit("dns_failure");
    reveal_strlit("tls_failure");
    reveal_strlit("connection_timeout");
    reveal_strlit("webhook_signature");
    reveal_strlit("rate_limit");
    reveal_strlit("auth_missing");
    reveal_strlit("bad_payload");
    reveal_strlit("unknown");
    reveal_with_fuel(entry_index, 9);
    let p = builtin_prose();
    assert(entry_index(p, "dns_failure"@, 0) == Some(0int));
    assert(p[0].0[0] != "tls_failure"@[0]);
    assert(entry_index(p, "tls_failure"@, 0) == Some(1int));
    assert(p[0].0.len() != "connection_timeout"@.len());
    assert(p[1].0.len() != "connection_timeout"@.len());
    assert(entry_index(p, "connection_timeout"@, 0) == Some(2int));
    assert(p[0].0.len() != "webhook_signature"@.len());
    assert(p[1].0.len() != "webhook_signature"@.len());
    assert(p[2].0.len() != "webhook_signature"@.len());
    assert(entry_index(p, "webhook_signature"@, 0) == Some(3int));
    assert(p[0].0.len() != "rate_limit"@.len());
    assert(p[1].0.len() != "rate_limit"@.len());
    assert(p[2].0.len() != "rate_limit"@.len());
    assert(p[3].0.len() != "rate_limit"@.len());
    assert(entry_index(p, "rate_limit"@, 0) == Some(4int));
    assert(p[0].0.len() != "auth_missing"@.len());
    assert(p[1].0.len() != "auth_missing"@.len());
    assert(p[2].0.len() != "auth_missing"@.len());
    assert(p[3].0.len() != "auth_missing"@.len());
    assert(p[4].0.len() != "auth_missing"@.len());
    assert(entry_index(p, "auth_missing"@, 0) == Some(5int));
    assert(p[0].0[0] != "bad_payload"@[0]);
    assert(p[1].0[0] != "bad_payload"@[0]);
    assert(p[2].0.len() != "bad_payload"@.len());
    assert(p[3].0.len() != "bad_payload"@.len());
    assert(p[4].0.len() != "bad_payload"@.len());
    assert(p[5].0.len() != "bad_payload"@.len());
    assert(entry_index(p, "bad_payload"@, 0) == Some(6int));
    assert(p[0].0.len() != "unknown"@.len());
    assert(p[1].0.len() != "unknown"@.len());
    assert(p[2].0.len() != "unknown"@.len());
    assert(p[3].0.len() != "unknown"@.len());
    assert(p[4].0.len() != "unknown"@.len());
    assert(p[5].0.len() != "unknown"@.len());
    assert(p[6].0.len() != "unknown"@.len());
    assert(entry_index(p, "unknown"@, 0) == Some(7int));
}

} // verus!
