//! Deterministic rules engine.
//!
//! [`diagnose`] is a pure function over `(name, &[Evidence])`. Rules are
//! tried in a fixed order, from most specific (network-layer failure) to
//! least specific (application-layer failure), and the first match wins:
//!
//! 1. `dns_failure` on any `DnsResolutionFailed`;
//! 2. `tls_failure` on any `TlsHandshakeFailed`;
//! 3. `connection_timeout` on any `ConnectionTimeout`;
//! 4. `webhook_signature` on any `SignatureMismatch`;
//! 5. `rate_limit` on `HttpStatus(429)` and a `RetryAfterSecs`;
//! 6. `auth_missing` on `HttpStatus(401)` and `HeaderMissing("Authorization")`;
//! 7. `bad_payload` on `HttpStatus(400)` and a `JsonValidationError`;
//! 8. `unknown`, the fallback, which assigns no cause.
//!
//! Each rule surfaces a curated subset of the evidence, chosen by [`pick`]
//! in a rule-specific order; the prose comes from [`crate::prose`].

use vstd::prelude::*;
use vstd::string::StringExecFns;
use crate::evidence::{contains_evidence, Evidence, EvidenceV, evs};
use crate::prose::{builtin_prose, has_rule, prose, prose_ready, rule_entry, Prose, RuleProseV};
use crate::text::{clone_strings, owned, replace_all, str_equal, strs_view};

verus! {

/// Severity rank assigned to a diagnosis.
#[derive(Debug, Clone, Copy, PartialEq, Eq, Structural)]
pub enum Severity {
    Low,
    Medium,
    High,
    Critical,
}

/// The lowercase label of a severity.
pub open spec fn severity_label(s: Severity) -> Seq<char> {
    match s {
        Severity::Low => "low"@,
        Severity::Medium => "medium"@,
        Severity::High => "high"@,
        Severity::Critical => "critical"@,
    }
}

impl Severity {
    /// Lowercase label used in rendered output.
    pub fn as_str(&self) -> (r: &'static str)
        ensures
            r@ == severity_label(*self),
    {
        match self {
            Severity::Low => "low",
            Severity::Medium => "medium",
            Severity::High => "high",
            Severity::Critical => "critical",
        }
    }
}

/// How the rule arrived at its severity rank.
#[derive(Debug, Clone)]
pub enum SeveritySource {
    AuthorJudgment { rationale: String },
    DerivedFromEvidence { rationale: String },
}

/// The value of a [`SeveritySource`].
pub enum SeveritySourceV {
    AuthorJudgment { rationale: Seq<char> },
    DerivedFromEvidence { rationale: Seq<char> },
}

impl View for SeveritySource {
    type V = SeveritySourceV;

    open spec fn view(&self) -> SeveritySourceV {
        match self {
            SeveritySource::AuthorJudgment { rationale } => SeveritySourceV::AuthorJudgment {
                rationale: rationale@,
            },
            SeveritySource::DerivedFromEvidence { rationale } =>
                SeveritySourceV::DerivedFromEvidence { rationale: rationale@ },
        }
    }
}

/// The rationale of a severity source, whatever its kind.
pub open spec fn source_rationale(s: SeveritySourceV) -> Seq<char> {
    match s {
        SeveritySourceV::AuthorJudgment { rationale } => rationale,
        SeveritySourceV::DerivedFromEvidence { rationale } => rationale,
    }
}

/// The provenance label of a severity source.
pub open spec fn source_label(s: SeveritySourceV) -> Seq<char> {
    match s {
        SeveritySourceV::AuthorJudgment { .. } => "author judgment"@,
        SeveritySourceV::DerivedFromEvidence { .. } => "derived from evidence"@,
    }
}

impl SeveritySource {
    /// The human-readable rationale, regardless of variant.
    pub fn rationale(&self) -> (r: &str)
        ensures
            r@ == source_rationale(self@),
    {
        match self {
            SeveritySource::AuthorJudgment { rationale } => rationale.as_str(),
            SeveritySource::DerivedFromEvidence { rationale } => rationale.as_str(),
        }
    }

    /// Short label distinguishing the two provenance kinds.
    pub fn label(&self) -> (r: &'static str)
        ensures
            r@ == source_label(self@),
    {
        match self {
            SeveritySource::AuthorJudgment { .. } => "author judgment",
            SeveritySource::DerivedFromEvidence { .. } => "derived from evidence",
        }
    }
}

/// The variant of an evidence item, without its fields.
#[derive(Debug, Clone, Copy, PartialEq, Eq, Structural)]
pub enum EvidenceKind {
    HttpStatus,
    HeaderPresent,
    HeaderMissing,
    BodyMutatedBeforeVerification,
    SignatureMismatch,
    ClockDriftSecs,
    RetryAfterSecs,
    RateLimitObserved,
    DnsResolutionFailed,
    TlsHandshakeFailed,
    ConnectionTimeout,
    JsonValidationError,
}

/// The variant of an evidence value.
pub open spec fn kind_of(e: EvidenceV) -> EvidenceKind {
    match e {
        EvidenceV::HttpStatus(..) => EvidenceKind::HttpStatus,
        EvidenceV::HeaderPresent { .. } => EvidenceKind::HeaderPresent,
        EvidenceV::HeaderMissing { .. } => EvidenceKind::HeaderMissing,
        EvidenceV::BodyMutatedBeforeVerification => EvidenceKind::BodyMutatedBeforeVerification,
        EvidenceV::SignatureMismatch => EvidenceKind::SignatureMismatch,
        EvidenceV::ClockDriftSecs { .. } => EvidenceKind::ClockDriftSecs,
        EvidenceV::RetryAfterSecs(..) => EvidenceKind::RetryAfterSecs,
        EvidenceV::RateLimitObserved { .. } => EvidenceKind::RateLimitObserved,
        EvidenceV::DnsResolutionFailed { .. } => EvidenceKind::DnsResolutionFailed,
        EvidenceV::TlsHandshakeFailed { .. } => EvidenceKind::TlsHandshakeFailed,
        EvidenceV::ConnectionTimeout { .. } => EvidenceKind::ConnectionTimeout,
        EvidenceV::JsonValidationError { .. } => EvidenceKind::JsonValidationError,
    }
}

/// The variant of an evidence item.
pub fn kind(e: &Evidence) -> (k: EvidenceKind)
    ensures
        k == kind_of(e@),
{
    match e {
        Evidence::HttpStatus(..) => EvidenceKind::HttpStatus,
        Evidence::HeaderPresent { .. } => EvidenceKind::HeaderPresent,
        Evidence::HeaderMissing { .. } => EvidenceKind::HeaderMissing,
        Evidence::BodyMutatedBeforeVerification => EvidenceKind::BodyMutatedBeforeVerification,
        Evidence::SignatureMismatch => EvidenceKind::SignatureMismatch,
        Evidence::ClockDriftSecs { .. } => EvidenceKind::ClockDriftSecs,
        Evidence::RetryAfterSecs(..) => EvidenceKind::RetryAfterSecs,
        Evidence::RateLimitObserved { .. } => EvidenceKind::RateLimitObserved,
        Evidence::DnsResolutionFailed { .. } => EvidenceKind::DnsResolutionFailed,
        Evidence::TlsHandshakeFailed { .. } => EvidenceKind::TlsHandshakeFailed,
        Evidence::ConnectionTimeout { .. } => EvidenceKind::ConnectionTimeout,
        Evidence::JsonValidationError { .. } => EvidenceKind::JsonValidationError,
    }
}

/// The rule arms of the engine.
#[derive(Debug, Clone, Copy, PartialEq, Eq, Structural)]
pub enum Rule {
    DnsFailure,
    TlsFailure,
    ConnectionTimeout,
    WebhookSignature,
    RateLimit,
    AuthMissing,
    BadPayload,
    Unknown,
}

/// The stable name of a rule, also its key in the prose table.
pub open spec fn rule_name(r: Rule) -> Seq<char> {
    match r {
        Rule::DnsFailure => "dns_failure"@,
        Rule::TlsFailure => "tls_failure"@,
        Rule::ConnectionTimeout => "connection_timeout"@,
        Rule::WebhookSignature => "webhook_signature"@,
        Rule::RateLimit => "rate_limit"@,
        Rule::AuthMissing => "auth_missing"@,
        Rule::BadPayload => "bad_payload"@,
        Rule::Unknown => "unknown"@,
    }
}

/// The severity each rule assigns.
pub open spec fn rule_severity(r: Rule) -> Severity {
    match r {
        Rule::DnsFailure => Severity::Critical,
        Rule::TlsFailure => Severity::Critical,
        Rule::ConnectionTimeout => Severity::High,
        Rule::WebhookSignature => Severity::High,
        Rule::RateLimit => Severity::Medium,
        Rule::AuthMissing => Severity::Medium,
        Rule::BadPayload => Severity::Low,
        Rule::Unknown => Severity::Low,
    }
}

/// Some item of `ev` is of variant `k`.
pub open spec fn has_kind(ev: Seq<EvidenceV>, k: EvidenceKind) -> bool {
    exists|i: int| 0 <= i < ev.len() && kind_of(#[trigger] ev[i]) == k
}

/// Trigger of `rate_limit`.
pub open spec fn rate_limit_fires(ev: Seq<EvidenceV>) -> bool {
    ev.contains(EvidenceV::HttpStatus(429)) && has_kind(ev, EvidenceKind::RetryAfterSecs)
}

/// Trigger of `auth_missing`.
pub open spec fn auth_missing_fires(ev: Seq<EvidenceV>) -> bool {
    ev.contains(EvidenceV::HttpStatus(401)) && ev.contains(
        EvidenceV::HeaderMissing { name: "Authorization"@ },
    )
}

/// Trigger of `bad_payload`.
pub open spec fn bad_payload_fires(ev: Seq<EvidenceV>) -> bool {
    ev.contains(EvidenceV::HttpStatus(400)) && has_kind(ev, EvidenceKind::JsonValidationError)
}

/// The rule that fires on `ev`: the first, in rule order, whose trigger is
/// present.
pub open spec fn selected_rule(ev: Seq<EvidenceV>) -> Rule {
    if has_kind(ev, EvidenceKind::DnsResolutionFailed) {
        Rule::DnsFailure
    } else if has_kind(ev, EvidenceKind::TlsHandshakeFailed) {
        Rule::TlsFailure
    } else if has_kind(ev, EvidenceKind::ConnectionTimeout) {
        Rule::ConnectionTimeout
    } else if has_kind(ev, EvidenceKind::SignatureMismatch) {
        Rule::WebhookSignature
    } else if rate_limit_fires(ev) {
        Rule::RateLimit
    } else if auth_missing_fires(ev) {
        Rule::AuthMissing
    } else if bad_payload_fires(ev) {
        Rule::BadPayload
    } else {
        Rule::Unknown
    }
}

/// The host of the first DNS failure in `ev`.
pub open spec fn first_dns_host(ev: Seq<EvidenceV>) -> Option<Seq<char>>
    decreases ev.len(),
{
    if ev.len() == 0 {
        None
    } else {
        match ev[0] {
            EvidenceV::DnsResolutionFailed { host, .. } => Some(host),
            _ => first_dns_host(ev.drop_first()),
        }
    }
}

/// The peer of the first TLS failure in `ev`.
pub open spec fn first_tls_peer(ev: Seq<EvidenceV>) -> Option<Seq<char>>
    decreases ev.len(),
{
    if ev.len() == 0 {
        None
    } else {
        match ev[0] {
            EvidenceV::TlsHandshakeFailed { peer, .. } => Some(peer),
            _ => first_tls_peer(ev.drop_first()),
        }
    }
}

/// The field of the first validation error in `ev`.
pub open spec fn first_json_field(ev: Seq<EvidenceV>) -> Option<Option<Seq<char>>>
    decreases ev.len(),
{
    if ev.len() == 0 {
        None
    } else {
        match ev[0] {
            EvidenceV::JsonValidationError { field, .. } => Some(field),
            _ => first_json_field(ev.drop_first()),
        }
    }
}

/// The likely-cause text of rule `r` on `ev`: the rule's template with the
/// first DNS host, first TLS peer or first validation field filled in, or
/// its static text.
pub open spec fn likely_cause_for(p: Seq<(Seq<char>, RuleProseV)>, r: Rule, ev: Seq<EvidenceV>) -> Seq<char> {
    let entry = rule_entry(p, rule_name(r));
    match r {
        Rule::DnsFailure => replace_all(
            entry.likely_cause_template->0,
            "{host}"@,
            first_dns_host(ev)->0,
        ),
        Rule::TlsFailure => replace_all(
            entry.likely_cause_template->0,
            "{peer}"@,
            first_tls_peer(ev)->0,
        ),
        Rule::BadPayload => match first_json_field(ev)->0 {
            Some(f) => replace_all(entry.likely_cause_template_with_field->0, "{field}"@, f),
            None => entry.likely_cause_template_no_field->0,
        },
        _ => entry.likely_cause->0,
    }
}

// ---------------------------------------------------------------------
// Evidence selection
// ---------------------------------------------------------------------

/// `out` extended, in the order of `ev`, with each item of variant `k` not
/// already in it.
pub open spec fn pick_kind(out: Seq<EvidenceV>, ev: Seq<EvidenceV>, k: EvidenceKind) -> Seq<EvidenceV>
    decreases ev.len(),
{
    if ev.len() == 0 {
        out
    } else {
        let prev = pick_kind(out, ev.drop_last(), k);
        let e = ev.last();
        if kind_of(e) == k && !prev.contains(e) {
            prev.push(e)
        } else {
            prev
        }
    }
}

/// The items of `ev` whose variant is among `kinds`, grouped in the order of
/// `kinds`, in input order within a group, each item at most once.
pub open spec fn picked(ev: Seq<EvidenceV>, kinds: Seq<EvidenceKind>) -> Seq<EvidenceV>
    decreases kinds.len(),
{
    if kinds.len() == 0 {
        seq![]
    } else {
        pick_kind(picked(ev, kinds.drop_last()), ev, kinds.last())
    }
}

/// The evidence order each rule pins.
pub open spec fn pinned_kinds(r: Rule) -> Seq<EvidenceKind> {
    match r {
        Rule::DnsFailure => seq![
            EvidenceKind::DnsResolutionFailed,
            EvidenceKind::ConnectionTimeout,
            EvidenceKind::HttpStatus,
        ],
        Rule::TlsFailure => seq![
            EvidenceKind::TlsHandshakeFailed,
            EvidenceKind::DnsResolutionFailed,
            EvidenceKind::HttpStatus,
        ],
        Rule::ConnectionTimeout => seq![EvidenceKind::ConnectionTimeout, EvidenceKind::HttpStatus],
        Rule::WebhookSignature => seq![
            EvidenceKind::HttpStatus,
            EvidenceKind::SignatureMismatch,
            EvidenceKind::ClockDriftSecs,
            EvidenceKind::BodyMutatedBeforeVerification,
        ],
        Rule::RateLimit => seq![
            EvidenceKind::HttpStatus,
            EvidenceKind::RetryAfterSecs,
            EvidenceKind::RateLimitObserved,
        ],
        Rule::AuthMissing => seq![EvidenceKind::HttpStatus, EvidenceKind::HeaderMissing],
        Rule::BadPayload => seq![EvidenceKind::HttpStatus, EvidenceKind::JsonValidationError],
        Rule::Unknown => seq![],
    }
}

/// The evidence a rule surfaces: its pinned selection, or everything for the
/// fallback.
pub open spec fn pinned_evidence(r: Rule, ev: Seq<EvidenceV>) -> Seq<EvidenceV> {
    if r == Rule::Unknown {
        ev
    } else {
        picked(ev, pinned_kinds(r))
    }
}

fn pick_one(out: &mut Vec<Evidence>, ev: &[Evidence], k: EvidenceKind)
    ensures
        evs(final(out)@) == pick_kind(evs(old(out)@), evs(ev@), k),
{
    let ghost start = evs(out@);
    let mut i: usize = 0;
    assert(evs(ev@).take(0) =~= Seq::<EvidenceV>::empty());
    while i < ev.len()
        invariant
            i <= ev.len(),
            evs(out@) == pick_kind(start, evs(ev@).take(i as int), k),
        decreases ev.len() - i,
    {
        assert(evs(ev@).take(i + 1).drop_last() =~= evs(ev@).take(i as int));
        assert(evs(ev@).take(i + 1).last() == ev@[i as int]@);
        if kind(&ev[i]) == k && !crate::evidence::contains_evidence(out.as_slice(), &ev[i]) {
            let ghost before = evs(out@);
            let e = ev[i].duplicate();
            out.push(e);
            assert(evs(out@) =~= before.push(ev@[i as int]@));
        }
        i = i + 1;
    }
    assert(evs(ev@).take(i as int) =~= evs(ev@));
}

/// Pick evidence items of the given variants, in the order the variants
/// are listed, preserving input order within a variant; each item is
/// included at most once.
pub fn pick(ev: &[Evidence], kinds: &Vec<EvidenceKind>) -> (out: Vec<Evidence>)
    ensures
        evs(out@) == picked(evs(ev@), kinds@),
{
    let mut out: Vec<Evidence> = Vec::new();
    let mut j: usize = 0;
    assert(kinds@.take(0) =~= Seq::<EvidenceKind>::empty());
    assert(evs(out@) =~= Seq::<EvidenceV>::empty());
    while j < kinds.len()
        invariant
            j <= kinds.len(),
            evs(out@) == picked(evs(ev@), kinds@.take(j as int)),
        decreases kinds.len() - j,
    {
        assert(kinds@.take(j + 1).drop_last() =~= kinds@.take(j as int));
        pick_one(&mut out, ev, kinds[j]);
        j = j + 1;
    }
    assert(kinds@.take(j as int) =~= kinds@);
    out
}

// ---------------------------------------------------------------------
// Diagnosis
// ---------------------------------------------------------------------

/// The output of [`diagnose`], consumed by every renderer.
#[derive(Debug, Clone)]
pub struct Diagnosis {
    pub case: String,
    pub severity: Severity,
    pub severity_source: SeveritySource,
    pub likely_cause: String,
    pub evidence: Vec<Evidence>,
    pub hypotheses: Vec<String>,
    pub unknowns: Vec<String>,
    pub next_steps: Vec<String>,
    pub reproduction: String,
    pub escalation_note: String,
    pub rule: &'static str,
}

/// The value of a [`Diagnosis`].
pub struct DiagnosisV {
    pub case: Seq<char>,
    pub severity: Severity,
    pub severity_source: SeveritySourceV,
    pub likely_cause: Seq<char>,
    pub evidence: Seq<EvidenceV>,
    pub hypotheses: Seq<Seq<char>>,
    pub unknowns: Seq<Seq<char>>,
    pub next_steps: Seq<Seq<char>>,
    pub reproduction: Seq<char>,
    pub escalation_note: Seq<char>,
    pub rule: Seq<char>,
}

impl View for Diagnosis {
    type V = DiagnosisV;

    open spec fn view(&self) -> DiagnosisV {
        DiagnosisV {
            case: self.case@,
            severity: self.severity,
            severity_source: self.severity_source@,
            likely_cause: self.likely_cause@,
            evidence: evs(self.evidence@),
            hypotheses: strs_view(self.hypotheses@),
            unknowns: strs_view(self.unknowns@),
            next_steps: strs_view(self.next_steps@),
            reproduction: self.reproduction@,
            escalation_note: self.escalation_note@,
            rule: self.rule@,
        }
    }
}

/// The reproduction command for a case.
pub open spec fn reproduction_for(name: Seq<char>) -> Seq<char> {
    "cargo run -p llm-assisted-api-debugging-lab -- diagnose "@ + name
}

/// The diagnosis rule `r` produces for case `name` on evidence `ev`, with
/// prose from table `p`.
pub open spec fn rule_diagnosis(
    p: Seq<(Seq<char>, RuleProseV)>,
    name: Seq<char>,
    r: Rule,
    ev: Seq<EvidenceV>,
) -> DiagnosisV {
    let entry = rule_entry(p, rule_name(r));
    DiagnosisV {
        case: name,
        severity: rule_severity(r),
        severity_source: SeveritySourceV::AuthorJudgment { rationale: entry.severity_rationale },
        likely_cause: likely_cause_for(p, r, ev),
        evidence: pinned_evidence(r, ev),
        hypotheses: entry.hypotheses,
        unknowns: entry.unknowns,
        next_steps: entry.next_steps,
        reproduction: reproduction_for(name),
        escalation_note: entry.escalation_note,
        rule: rule_name(r),
    }
}

/// The diagnosis of case `name` on evidence `ev`, with prose table `p`.
pub open spec fn diagnosis_for(
    p: Seq<(Seq<char>, RuleProseV)>,
    name: Seq<char>,
    ev: Seq<EvidenceV>,
) -> DiagnosisV {
    rule_diagnosis(p, name, selected_rule(ev), ev)
}

/// Whether some item of `ev` is of variant `k`.
fn has_kind_of(ev: &[Evidence], k: EvidenceKind) -> (r: bool)
    ensures
        r == has_kind(evs(ev@), k),
{
    let mut i: usize = 0;
    while i < ev.len()
        invariant
            i <= ev.len(),
            forall|j: int| 0 <= j < i ==> kind_of(#[trigger] evs(ev@)[j]) != k,
        decreases ev.len() - i,
    {
        if kind(&ev[i]) == k {
            assert(kind_of(evs(ev@)[i as int]) == k);
            return true;
        }
        i = i + 1;
    }
    false
}

proof fn lemma_first_skip(ev: Seq<EvidenceV>, i: int)
    requires
        0 <= i < ev.len(),
    ensures
        ev.skip(i).drop_first() == ev.skip(i + 1),
        ev.skip(i)[0] == ev[i],
{
    assert(ev.skip(i).drop_first() =~= ev.skip(i + 1));
}

/// The host of the first DNS failure, when there is one.
fn first_dns_host_of(ev: &[Evidence]) -> (r: Option<String>)
    ensures
        crate::text::opt_view(r) == first_dns_host(evs(ev@)),
        r is Some <==> has_kind(evs(ev@), EvidenceKind::DnsResolutionFailed),
{
    let ghost s = evs(ev@);
    let mut i: usize = 0;
    assert(s.skip(0) =~= s);
    while i < ev.len()
        invariant
            i <= ev.len(),
            s == evs(ev@),
            first_dns_host(s) == first_dns_host(s.skip(i as int)),
            forall|j: int| 0 <= j < i ==> kind_of(#[trigger] s[j]) != EvidenceKind::DnsResolutionFailed,
        decreases ev.len() - i,
    {
        proof {
            lemma_first_skip(s, i as int);
        }
        match &ev[i] {
            Evidence::DnsResolutionFailed { host, .. } => {
                assert(kind_of(s[i as int]) == EvidenceKind::DnsResolutionFailed);
                return Some(host.clone());
            },
            _ => {},
        }
        i = i + 1;
    }
    assert(s.skip(i as int).len() == 0);
    None
}

/// The peer of the first TLS failure, when there is one.
fn first_tls_peer_of(ev: &[Evidence]) -> (r: Option<String>)
    ensures
        crate::text::opt_view(r) == first_tls_peer(evs(ev@)),
        r is Some <==> has_kind(evs(ev@), EvidenceKind::TlsHandshakeFailed),
{
    let ghost s = evs(ev@);
    let mut i: usize = 0;
    assert(s.skip(0) =~= s);
    while i < ev.len()
        invariant
            i <= ev.len(),
            s == evs(ev@),
            first_tls_peer(s) == first_tls_peer(s.skip(i as int)),
            forall|j: int| 0 <= j < i ==> kind_of(#[trigger] s[j]) != EvidenceKind::TlsHandshakeFailed,
        decreases ev.len() - i,
    {
        proof {
            lemma_first_skip(s, i as int);
        }
        match &ev[i] {
            Evidence::TlsHandshakeFailed { peer, .. } => {
                assert(kind_of(s[i as int]) == EvidenceKind::TlsHandshakeFailed);
                return Some(peer.clone());
            },
            _ => {},
        }
        i = i + 1;
    }
    assert(s.skip(i as int).len() == 0);
    None
}

/// The field of the first validation error, when there is one.
fn first_json_field_of(ev: &[Evidence]) -> (r: Option<Option<String>>)
    ensures
        match r {
            Some(f) => first_json_field(evs(ev@)) == Some(crate::text::opt_view(f)),
            None => first_json_field(evs(ev@)) is None,
        },
        r is Some <==> has_kind(evs(ev@), EvidenceKind::JsonValidationError),
{
    let ghost s = evs(ev@);
    let mut i: usize = 0;
    assert(s.skip(0) =~= s);
    while i < ev.len()
        invariant
            i <= ev.len(),
            s == evs(ev@),
            first_json_field(s) == first_json_field(s.skip(i as int)),
            forall|j: int| 0 <= j < i ==> kind_of(#[trigger] s[j]) != EvidenceKind::JsonValidationError,
        decreases ev.len() - i,
    {
        proof {
            lemma_first_skip(s, i as int);
        }
        match &ev[i] {
            Evidence::JsonValidationError { field, .. } => {
                assert(kind_of(s[i as int]) == EvidenceKind::JsonValidationError);
                let f = match field {
                    Some(x) => Some(x.clone()),
                    None => None,
                };
                return Some(f);
            },
            _ => {},
        }
        i = i + 1;
    }
    assert(s.skip(i as int).len() == 0);
    None
}

/// The name of a rule.
fn rule_label(r: Rule) -> (s: &'static str)
    ensures
        s@ == rule_name(r),
{
    match r {
        Rule::DnsFailure => "dns_failure",
        Rule::TlsFailure => "tls_failure",
        Rule::ConnectionTimeout => "connection_timeout",
        Rule::WebhookSignature => "webhook_signature",
        Rule::RateLimit => "rate_limit",
        Rule::AuthMissing => "auth_missing",
        Rule::BadPayload => "bad_payload",
        Rule::Unknown => "unknown",
    }
}

/// The severity of a rule.
fn severity_for(r: Rule) -> (s: Severity)
    ensures
        s == rule_severity(r),
{
    match r {
        Rule::DnsFailure | Rule::TlsFailure => Severity::Critical,
        Rule::ConnectionTimeout | Rule::WebhookSignature => Severity::High,
        Rule::RateLimit | Rule::AuthMissing => Severity::Medium,
        Rule::BadPayload | Rule::Unknown => Severity::Low,
    }
}

/// Construct a diagnosis from the pieces that vary between rules; the rest
/// comes from the rule's prose entry.
fn from_rule(
    p: &Prose,
    name: &str,
    rule: Rule,
    likely_cause: String,
    pinned_evidence: Vec<Evidence>,
    reproduction: &str,
) -> (d: Diagnosis)
    requires
        has_rule(p@, rule_name(rule)),
    ensures
        ({
            let entry = rule_entry(p@, rule_name(rule));
            d@ == DiagnosisV {
                case: name@,
                severity: rule_severity(rule),
                severity_source: SeveritySourceV::AuthorJudgment {
                    rationale: entry.severity_rationale,
                },
                likely_cause: likely_cause@,
                evidence: evs(pinned_evidence@),
                hypotheses: entry.hypotheses,
                unknowns: entry.unknowns,
                next_steps: entry.next_steps,
                reproduction: reproduction@,
                escalation_note: entry.escalation_note,
                rule: rule_name(rule),
            }
        }),
{
    let label = rule_label(rule);
    let entry = p.rule(label);
    Diagnosis {
        case: owned(name),
        severity: severity_for(rule),
        severity_source: SeveritySource::AuthorJudgment {
            rationale: entry.severity_rationale.clone(),
        },
        likely_cause,
        evidence: pinned_evidence,
        hypotheses: clone_strings(&entry.hypotheses),
        unknowns: clone_strings(&entry.unknowns),
        next_steps: clone_strings(&entry.next_steps),
        reproduction: owned(reproduction),
        escalation_note: entry.escalation_note.clone(),
        rule: label,
    }
}

/// Trigger: any `DnsResolutionFailed`. Severity critical.
fn rule_dns_failure(p: &Prose, name: &str, ev: &[Evidence], reproduction: &str) -> (r: Option<Diagnosis>)
    requires
        prose_ready(p@),
        reproduction@ == reproduction_for(name@),
    ensures
        r is Some <==> has_kind(evs(ev@), EvidenceKind::DnsResolutionFailed),
        r matches Some(d) ==> d@ == rule_diagnosis(p@, name@, Rule::DnsFailure, evs(ev@)),
{
    let host = first_dns_host_of(ev)?;
    let pinned = pick(
        ev,
        &vec![
            EvidenceKind::DnsResolutionFailed,
            EvidenceKind::ConnectionTimeout,
            EvidenceKind::HttpStatus,
        ],
    );
    let likely_cause = p.rule("dns_failure").likely_cause_with_host(host.as_str());
    Some(from_rule(p, name, Rule::DnsFailure, likely_cause, pinned, reproduction))
}

/// Trigger: any `TlsHandshakeFailed`. Severity critical.
fn rule_tls_failure(p: &Prose, name: &str, ev: &[Evidence], reproduction: &str) -> (r: Option<Diagnosis>)
    requires
        prose_ready(p@),
        reproduction@ == reproduction_for(name@),
    ensures
        r is Some <==> has_kind(evs(ev@), EvidenceKind::TlsHandshakeFailed),
        r matches Some(d) ==> d@ == rule_diagnosis(p@, name@, Rule::TlsFailure, evs(ev@)),
{
    let peer = first_tls_peer_of(ev)?;
    let pinned = pick(
        ev,
        &vec![
            EvidenceKind::TlsHandshakeFailed,
            EvidenceKind::DnsResolutionFailed,
            EvidenceKind::HttpStatus,
        ],
    );
    let likely_cause = p.rule("tls_failure").likely_cause_with_peer(peer.as_str());
    Some(from_rule(p, name, Rule::TlsFailure, likely_cause, pinned, reproduction))
}

/// Trigger: any `ConnectionTimeout`. Severity high.
fn rule_connection_timeout(p: &Prose, name: &str, ev: &[Evidence], reproduction: &str) -> (r:
    Option<Diagnosis>)
    requires
        prose_ready(p@),
        reproduction@ == reproduction_for(name@),
    ensures
        r is Some <==> has_kind(evs(ev@), EvidenceKind::ConnectionTimeout),
        r matches Some(d) ==> d@ == rule_diagnosis(p@, name@, Rule::ConnectionTimeout, evs(ev@)),
{
    if !has_kind_of(ev, EvidenceKind::ConnectionTimeout) {
        return None;
    }
    let pinned = pick(ev, &vec![EvidenceKind::ConnectionTimeout, EvidenceKind::HttpStatus]);
    let likely_cause = owned(p.rule("connection_timeout").likely_cause_static());
    Some(from_rule(p, name, Rule::ConnectionTimeout, likely_cause, pinned, reproduction))
}

/// Trigger: any `SignatureMismatch`. Severity high.
fn rule_webhook_signature(p: &Prose, name: &str, ev: &[Evidence], reproduction: &str) -> (r:
    Option<Diagnosis>)
    requires
        prose_ready(p@),
        reproduction@ == reproduction_for(name@),
    ensures
        r is Some <==> has_kind(evs(ev@), EvidenceKind::SignatureMismatch),
        r matches Some(d) ==> d@ == rule_diagnosis(p@, name@, Rule::WebhookSignature, evs(ev@)),
{
    if !has_kind_of(ev, EvidenceKind::SignatureMismatch) {
        return None;
    }
    let pinned = pick(
        ev,
        &vec![
            EvidenceKind::HttpStatus,
            EvidenceKind::SignatureMismatch,
            EvidenceKind::ClockDriftSecs,
            EvidenceKind::BodyMutatedBeforeVerification,
        ],
    );
    let likely_cause = owned(p.rule("webhook_signature").likely_cause_static());
    Some(from_rule(p, name, Rule::WebhookSignature, likely_cause, pinned, reproduction))
}

/// Trigger: `HttpStatus(429)` and a `RetryAfterSecs` together. Severity
/// medium.
fn rule_rate_limit(p: &Prose, name: &str, ev: &[Evidence], reproduction: &str) -> (r: Option<
    Diagnosis,
>)
    requires
        prose_ready(p@),
        reproduction@ == reproduction_for(name@),
    ensures
        r is Some <==> rate_limit_fires(evs(ev@)),
        r matches Some(d) ==> d@ == rule_diagnosis(p@, name@, Rule::RateLimit, evs(ev@)),
{
    let has_429 = contains_evidence(ev, &Evidence::HttpStatus(429));
    let has_retry = has_kind_of(ev, EvidenceKind::RetryAfterSecs);
    if !(has_429 && has_retry) {
        return None;
    }
    let pinned = pick(
        ev,
        &vec![
            EvidenceKind::HttpStatus,
            EvidenceKind::RetryAfterSecs,
            EvidenceKind::RateLimitObserved,
        ],
    );
    let likely_cause = owned(p.rule("rate_limit").likely_cause_static());
    Some(from_rule(p, name, Rule::RateLimit, likely_cause, pinned, reproduction))
}

/// Trigger: `HttpStatus(401)` and `HeaderMissing("Authorization")`
/// together. Severity medium.
fn rule_auth_missing(p: &Prose, name: &str, ev: &[Evidence], reproduction: &str) -> (r: Option<
    Diagnosis,
>)
    requires
        prose_ready(p@),
        reproduction@ == reproduction_for(name@),
    ensures
        r is Some <==> auth_missing_fires(evs(ev@)),
        r matches Some(d) ==> d@ == rule_diagnosis(p@, name@, Rule::AuthMissing, evs(ev@)),
{
    let has_401 = contains_evidence(ev, &Evidence::HttpStatus(401));
    let missing = Evidence::HeaderMissing { name: owned("Authorization") };
    let auth_missing = contains_evidence(ev, &missing);
    if !(has_401 && auth_missing) {
        return None;
    }
    let pinned = pick(ev, &vec![EvidenceKind::HttpStatus, EvidenceKind::HeaderMissing]);
    let likely_cause = owned(p.rule("auth_missing").likely_cause_static());
    Some(from_rule(p, name, Rule::AuthMissing, likely_cause, pinned, reproduction))
}

/// Trigger: `HttpStatus(400)` and a `JsonValidationError` together.
/// Severity low. The first validation error's field, when it has one, fills
/// the `{field}` placeholder.
fn rule_bad_payload(p: &Prose, name: &str, ev: &[Evidence], reproduction: &str) -> (r: Option<
    Diagnosis,
>)
    requires
        prose_ready(p@),
        reproduction@ == reproduction_for(name@),
    ensures
        r is Some <==> bad_payload_fires(evs(ev@)),
        r matches Some(d) ==> d@ == rule_diagnosis(p@, name@, Rule::BadPayload, evs(ev@)),
{
    let has_400 = contains_evidence(ev, &Evidence::HttpStatus(400));
    let validation = first_json_field_of(ev);
    if !has_400 || validation.is_none() {
        return None;
    }
    let field = validation.unwrap();
    let pinned = pick(ev, &vec![EvidenceKind::HttpStatus, EvidenceKind::JsonValidationError]);
    let entry = p.rule("bad_payload");
    let likely_cause = match &field {
        Some(f) => entry.likely_cause_with_optional_field(Some(f.as_str())),
        None => entry.likely_cause_with_optional_field(None),
    };
    Some(from_rule(p, name, Rule::BadPayload, likely_cause, pinned, reproduction))
}

fn copy_all(ev: &[Evidence]) -> (r: Vec<Evidence>)
    ensures
        evs(r@) == evs(ev@),
{
    let mut r: Vec<Evidence> = Vec::new();
    let mut i: usize = 0;
    while i < ev.len()
        invariant
            i <= ev.len(),
            evs(r@) == evs(ev@).take(i as int),
        decreases ev.len() - i,
    {
        let ghost before = evs(r@);
        r.push(ev[i].duplicate());
        assert(evs(r@) =~= before.push(ev@[i as int]@));
        i = i + 1;
        assert(evs(r@) =~= evs(ev@).take(i as int));
    }
    assert(evs(ev@).take(i as int) =~= evs(ev@));
    r
}

/// Fallback rule: always fires, shows every evidence item it received, and
/// assigns no cause. Severity low.
fn rule_unknown(p: &Prose, name: &str, ev: &[Evidence], reproduction: &str) -> (d: Diagnosis)
    requires
        prose_ready(p@),
        reproduction@ == reproduction_for(name@),
    ensures
        d@ == rule_diagnosis(p@, name@, Rule::Unknown, evs(ev@)),
{
    let likely_cause = owned(p.rule("unknown").likely_cause_static());
    from_rule(p, name, Rule::Unknown, likely_cause, copy_all(ev), reproduction)
}

/// Diagnose a case by name and the evidence collected for it: the rules are
/// tried in order, and the first that matches produces the diagnosis.
pub fn diagnose(name: &str, evidence: &[Evidence]) -> (d: Diagnosis)
    ensures
        d@ == diagnosis_for(builtin_prose(), name@, evs(evidence@)),
{
    let p = prose();
    let mut reproduction = owned("cargo run -p llm-assisted-api-debugging-lab -- diagnose ");
    reproduction.append(name);
    let reproduction = reproduction.as_str();
    if let Some(d) = rule_dns_failure(&p, name, evidence, reproduction) {
        return d;
    }
    if let Some(d) = rule_tls_failure(&p, name, evidence, reproduction) {
        return d;
    }
    if let Some(d) = rule_connection_timeout(&p, name, evidence, reproduction) {
        return d;
    }
    if let Some(d) = rule_webhook_signature(&p, name, evidence, reproduction) {
        return d;
    }
    if let Some(d) = rule_rate_limit(&p, name, evidence, reproduction) {
        return d;
    }
    if let Some(d) = rule_auth_missing(&p, name, evidence, reproduction) {
        return d;
    }
    if let Some(d) = rule_bad_payload(&p, name, evidence, reproduction) {
        return d;
    }
    rule_unknown(&p, name, evidence, reproduction)
}

// ---------------------------------------------------------------------
// Laws
// ---------------------------------------------------------------------

proof fn lemma_has_kind_same_contents(a: Seq<EvidenceV>, b: Seq<EvidenceV>, k: EvidenceKind)
    requires
        forall|e: EvidenceV| a.contains(e) <==> b.contains(e),
    ensures
        has_kind(a, k) <==> has_kind(b, k),
{
    if has_kind(a, k) {
        let i = choose|i: int| 0 <= i < a.len() && kind_of(#[trigger] a[i]) == k;
        assert(a.contains(a[i]));
        let j = choose|j: int| 0 <= j < b.len() && b[j] == a[i];
        assert(kind_of(b[j]) == k);
    }
    if has_kind(b, k) {
        let i = choose|i: int| 0 <= i < b.len() && kind_of(#[trigger] b[i]) == k;
        assert(b.contains(b[i]));
        let j = choose|j: int| 0 <= j < a.len() && a[j] == b[i];
        assert(kind_of(a[j]) == k);
    }
}

/// Rule selection depends only on which evidence items are present, not on
/// their order or multiplicity: two inputs with the same items select the
/// same rule, with the same severity.
pub proof fn lemma_rule_depends_only_on_contents(a: Seq<EvidenceV>, b: Seq<EvidenceV>)
    requires
        forall|e: EvidenceV| a.contains(e) <==> b.contains(e),
    ensures
        selected_rule(a) == selected_rule(b),
        rule_severity(selected_rule(a)) == rule_severity(selected_rule(b)),
{
    lemma_has_kind_same_contents(a, b, EvidenceKind::DnsResolutionFailed);
    lemma_has_kind_same_contents(a, b, EvidenceKind::TlsHandshakeFailed);
    lemma_has_kind_same_contents(a, b, EvidenceKind::ConnectionTimeout);
    lemma_has_kind_same_contents(a, b, EvidenceKind::SignatureMismatch);
    lemma_has_kind_same_contents(a, b, EvidenceKind::RetryAfterSecs);
    lemma_has_kind_same_contents(a, b, EvidenceKind::JsonValidationError);
}

/// Reversing the evidence does not change the rule selected or its
/// severity.
pub proof fn lemma_rule_selection_reverse_invariant(ev: Seq<EvidenceV>)
    ensures
        selected_rule(ev.reverse()) == selected_rule(ev),
        rule_severity(selected_rule(ev.reverse())) == rule_severity(selected_rule(ev)),
{
    let r = ev.reverse();
    assert forall|e: EvidenceV| ev.contains(e) <==> r.contains(e) by {
        if ev.contains(e) {
            let j = choose|j: int| 0 <= j < ev.len() && ev[j] == e;
            assert(r[ev.len() - 1 - j] == e);
        }
        if r.contains(e) {
            let j = choose|j: int| 0 <= j < r.len() && r[j] == e;
            assert(ev[ev.len() - 1 - j] == e);
        }
    }
    lemma_rule_depends_only_on_contents(ev, r);
}

/// `ev` rotated left by `offset`: item `i` is `ev[(i + offset) % n]`.
pub open spec fn rotated(ev: Seq<EvidenceV>, offset: nat) -> Seq<EvidenceV> {
    Seq::new(ev.len(), |i: int| ev[(i + offset) % (ev.len() as int)])
}

proof fn lemma_rotation_index(j: int, k: int, n: int)
    requires
        0 <= j < n,
        0 <= k,
    ensures
        0 <= (j + n - k % n) % n < n,
        ((j + n - k % n) % n + k) % n == j,
{
    let r = k % n;
    let q = k / n;
    assert(k == q * n + r && 0 <= r < n) by (nonlinear_arith)
        requires
            r == k % n,
            q == k / n,
            0 <= k,
            0 < n,
    ;
    let i = (j + n - r) % n;
    assert(0 <= i < n) by (nonlinear_arith)
        requires
            i == (j + n - r) % n,
            0 < n,
    ;
    assert((i + k) % n == j) by (nonlinear_arith)
        requires
            i == (j + n - r) % n,
            k == q * n + r,
            0 <= r < n,
            0 <= j < n,
            0 <= q,
    ;
}

/// Rotating the evidence by any offset does not change the rule selected.
pub proof fn lemma_rule_selection_rotation_invariant(ev: Seq<EvidenceV>, offset: nat)
    ensures
        selected_rule(rotated(ev, offset)) == selected_rule(ev),
{
    let r = rotated(ev, offset);
    let n = ev.len() as int;
    assert forall|e: EvidenceV| ev.contains(e) <==> r.contains(e) by {
        if ev.contains(e) {
            let j = choose|j: int| 0 <= j < ev.len() && ev[j] == e;
            lemma_rotation_index(j, offset as int, n);
            let i = (j + n - (offset as int) % n) % n;
            assert(r[i] == e);
        }
        if r.contains(e) {
            let i = choose|i: int| 0 <= i < r.len() && r[i] == e;
            assert(0 <= (i + offset) % n < n) by (nonlinear_arith)
                requires
                    0 <= i,
                    0 <= offset,
                    0 < n,
            ;
            assert(ev[(i + offset) % n] == e);
        }
    }
    lemma_rule_depends_only_on_contents(ev, r);
}

/// Adding a copy of one of its items to the evidence does not change the
/// rule selected.
pub proof fn lemma_rule_selection_duplication_invariant(ev: Seq<EvidenceV>, j: int)
    requires
        0 <= j < ev.len(),
    ensures
        selected_rule(ev.push(ev[j])) == selected_rule(ev),
{
    let d = ev.push(ev[j]);
    assert forall|e: EvidenceV| ev.contains(e) <==> d.contains(e) by {
        if ev.contains(e) {
            let k = choose|k: int| 0 <= k < ev.len() && ev[k] == e;
            assert(d[k] == e);
        }
        if d.contains(e) {
            let k = choose|k: int| 0 <= k < d.len() && d[k] == e;
            if k < ev.len() {
                assert(ev[k] == e);
            } else {
                assert(ev[j] == e);
            }
        }
    }
    lemma_rule_depends_only_on_contents(ev, d);
}

proof fn lemma_pick_kind(out: Seq<EvidenceV>, ev: Seq<EvidenceV>, k: EvidenceKind)
    ensures
        out.no_duplicates() ==> pick_kind(out, ev, k).no_duplicates(),
        forall|x: EvidenceV| #[trigger]
            pick_kind(out, ev, k).contains(x) <==> (out.contains(x) || (ev.contains(x)
                && kind_of(x) == k)),
    decreases ev.len(),
{
    if ev.len() > 0 {
        let prev = pick_kind(out, ev.drop_last(), k);
        lemma_pick_kind(out, ev.drop_last(), k);
        let e = ev.last();
        let res = pick_kind(out, ev, k);
        assert forall|x: EvidenceV| #[trigger]
            res.contains(x) <==> (out.contains(x) || (ev.contains(x) && kind_of(x) == k)) by {
            if ev.drop_last().contains(x) {
                let i = choose|i: int| 0 <= i < ev.drop_last().len() && ev.drop_last()[i] == x;
                assert(ev[i] == x);
            }
            if ev.contains(x) {
                let i = choose|i: int| 0 <= i < ev.len() && ev[i] == x;
                if i < ev.len() - 1 {
                    assert(ev.drop_last()[i] == x);
                }
            }
            if kind_of(e) == k && !prev.contains(e) {
                assert(res == prev.push(e));
                if res.contains(x) {
                    let i = choose|i: int| 0 <= i < res.len() && res[i] == x;
                    if i < prev.len() {
                        assert(prev[i] == x);
                    }
                }
                if prev.contains(x) {
                    let i = choose|i: int| 0 <= i < prev.len() && prev[i] == x;
                    assert(res[i] == x);
                }
                assert(res[prev.len() as int] == e);
            }
        }
        if out.no_duplicates() && kind_of(e) == k && !prev.contains(e) {
            assert(res == prev.push(e));
            assert forall|i: int, j: int| 0 <= i < res.len() && 0 <= j < res.len() && i != j
                implies res[i] != res[j] by {
                if i < prev.len() && j < prev.len() {
                } else if i == prev.len() {
                    assert(res[j] == prev[j]);
                    assert(prev.contains(prev[j]));
                } else {
                    assert(res[i] == prev[i]);
                    assert(prev.contains(prev[i]));
                }
            }
        }
    }
}

/// The evidence a rule pins is exactly the input items of the pinned
/// variants, each included once.
pub proof fn lemma_picked_exact(ev: Seq<EvidenceV>, kinds: Seq<EvidenceKind>)
    ensures
        picked(ev, kinds).no_duplicates(),
        forall|x: EvidenceV| #[trigger]
            picked(ev, kinds).contains(x) <==> (ev.contains(x) && kinds.contains(kind_of(x))),
    decreases kinds.len(),
{
    if kinds.len() > 0 {
        let k = kinds.last();
        lemma_picked_exact(ev, kinds.drop_last());
        lemma_pick_kind(picked(ev, kinds.drop_last()), ev, k);
        assert forall|x: EvidenceV| #[trigger]
            picked(ev, kinds).contains(x) <==> (ev.contains(x) && kinds.contains(kind_of(x))) by {
            if kinds.contains(kind_of(x)) {
                let i = choose|i: int| 0 <= i < kinds.len() && kinds[i] == kind_of(x);
                if i < kinds.len() - 1 {
                    assert(kinds.drop_last()[i] == kind_of(x));
                }
            }
            if kinds.drop_last().contains(kind_of(x)) {
                let i = choose|i: int| 0 <= i < kinds.drop_last().len() && kinds.drop_last()[i]
                    == kind_of(x);
                assert(kinds[i] == kind_of(x));
            }
            assert(kinds[kinds.len() - 1] == k);
        }
    } else {
        assert(picked(ev, kinds) =~= Seq::<EvidenceV>::empty());
    }
}

/// Every diagnosis surfaces only evidence it was given, without repeats;
/// the fallback surfaces all of it.
pub proof fn lemma_diagnosis_evidence_is_drawn_from_input(
    p: Seq<(Seq<char>, RuleProseV)>,
    name: Seq<char>,
    ev: Seq<EvidenceV>,
)
    ensures
        forall|x: EvidenceV| #[trigger]
            diagnosis_for(p, name, ev).evidence.contains(x) ==> ev.contains(x),
        selected_rule(ev) != Rule::Unknown ==> diagnosis_for(p, name, ev).evidence.no_duplicates(),
        selected_rule(ev) == Rule::Unknown ==> diagnosis_for(p, name, ev).evidence == ev,
{
    let r = selected_rule(ev);
    if r != Rule::Unknown {
        lemma_picked_exact(ev, pinned_kinds(r));
    }
}

/// A rule other than the fallback fires only on evidence that contains its
/// trigger, and the item that triggered it is among the evidence it
/// surfaces.
pub proof fn lemma_trigger_is_surfaced(
    p: Seq<(Seq<char>, RuleProseV)>,
    name: Seq<char>,
    ev: Seq<EvidenceV>,
)
    ensures
        selected_rule(ev) == Rule::DnsFailure ==> has_kind(
            diagnosis_for(p, name, ev).evidence,
            EvidenceKind::DnsResolutionFailed,
        ),
        selected_rule(ev) == Rule::TlsFailure ==> has_kind(
            diagnosis_for(p, name, ev).evidence,
            EvidenceKind::TlsHandshakeFailed,
        ),
        selected_rule(ev) == Rule::ConnectionTimeout ==> has_kind(
            diagnosis_for(p, name, ev).evidence,
            EvidenceKind::ConnectionTimeout,
        ),
        selected_rule(ev) == Rule::WebhookSignature ==> has_kind(
            diagnosis_for(p, name, ev).evidence,
            EvidenceKind::SignatureMismatch,
        ),
        selected_rule(ev) == Rule::RateLimit ==> rate_limit_fires(
            diagnosis_for(p, name, ev).evidence,
        ),
        selected_rule(ev) == Rule::AuthMissing ==> auth_missing_fires(
            diagnosis_for(p, name, ev).evidence,
        ),
        selected_rule(ev) == Rule::BadPayload ==> bad_payload_fires(
            diagnosis_for(p, name, ev).evidence,
        ),
{
    let r = selected_rule(ev);
    if r != Rule::Unknown {
        let ks = pinned_kinds(r);
        let out = picked(ev, ks);
        lemma_picked_exact(ev, ks);
        assert(diagnosis_for(p, name, ev).evidence == out);
        let wanted: Seq<EvidenceKind> = match r {
            Rule::DnsFailure => seq![EvidenceKind::DnsResolutionFailed],
            Rule::TlsFailure => seq![EvidenceKind::TlsHandshakeFailed],
            Rule::ConnectionTimeout => seq![EvidenceKind::ConnectionTimeout],
            Rule::WebhookSignature => seq![EvidenceKind::SignatureMismatch],
            Rule::RateLimit => seq![EvidenceKind::RetryAfterSecs],
            Rule::AuthMissing => seq![EvidenceKind::HeaderMissing],
            _ => seq![EvidenceKind::JsonValidationError],
        };
        let k = wanted[0];
        assert(ks.contains(k)) by {
            match r {
                Rule::DnsFailure => assert(ks[0] == k),
                Rule::TlsFailure => assert(ks[0] == k),
                Rule::ConnectionTimeout => assert(ks[0] == k),
                Rule::WebhookSignature => assert(ks[1] == k),
                Rule::RateLimit => assert(ks[1] == k),
                Rule::AuthMissing => assert(ks[1] == k),
                _ => assert(ks[1] == k),
            }
        }
        assert(has_kind(ev, k));
        let i = choose|i: int| 0 <= i < ev.len() && kind_of(#[trigger] ev[i]) == k;
        assert(ev.contains(ev[i]));
        assert(out.contains(ev[i]));
        let j = choose|j: int| 0 <= j < out.len() && out[j] == ev[i];
        assert(kind_of(out[j]) == k);
        if r == Rule::RateLimit || r == Rule::AuthMissing || r == Rule::BadPayload {
            let status: EvidenceV = match r {
                Rule::RateLimit => EvidenceV::HttpStatus(429),
                Rule::AuthMissing => EvidenceV::HttpStatus(401),
                _ => EvidenceV::HttpStatus(400),
            };
            assert(ev.contains(status));
            assert(ks[0] == EvidenceKind::HttpStatus);
            assert(out.contains(status));
            if r == Rule::AuthMissing {
                let m = EvidenceV::HeaderMissing { name: "Authorization"@ };
                assert(ev.contains(m));
                assert(out.contains(m));
            }
        }
    }
}

/// Some item of `ev` reports a DNS failure.
pub open spec fn any_dns_failure(ev: Seq<EvidenceV>) -> bool {
    exists|i: int| 0 <= i < ev.len() && (#[trigger] ev[i]) is DnsResolutionFailed
}

/// Some item of `ev` reports a TLS failure.
pub open spec fn any_tls_failure(ev: Seq<EvidenceV>) -> bool {
    exists|i: int| 0 <= i < ev.len() && (#[trigger] ev[i]) is TlsHandshakeFailed
}

/// Some item of `ev` reports a client timeout.
pub open spec fn any_timeout(ev: Seq<EvidenceV>) -> bool {
    exists|i: int| 0 <= i < ev.len() && (#[trigger] ev[i]) is ConnectionTimeout
}

/// Some item of `ev` carries a `Retry-After` value.
pub open spec fn any_retry_after(ev: Seq<EvidenceV>) -> bool {
    exists|i: int| 0 <= i < ev.len() && (#[trigger] ev[i]) is RetryAfterSecs
}

/// Some item of `ev` reports a validation error.
pub open spec fn any_validation_error(ev: Seq<EvidenceV>) -> bool {
    exists|i: int| 0 <= i < ev.len() && (#[trigger] ev[i]) is JsonValidationError
}

/// The rule table: the name and severity of the first rule, in order, whose
/// trigger is in `ev`.
pub open spec fn rule_table(ev: Seq<EvidenceV>) -> (Seq<char>, Severity) {
    if any_dns_failure(ev) {
        ("dns_failure"@, Severity::Critical)
    } else if any_tls_failure(ev) {
        ("tls_failure"@, Severity::Critical)
    } else if any_timeout(ev) {
        ("connection_timeout"@, Severity::High)
    } else if ev.contains(EvidenceV::SignatureMismatch) {
        ("webhook_signature"@, Severity::High)
    } else if ev.contains(EvidenceV::HttpStatus(429)) && any_retry_after(ev) {
        ("rate_limit"@, Severity::Medium)
    } else if ev.contains(EvidenceV::HttpStatus(401)) && ev.contains(
        EvidenceV::HeaderMissing { name: "Authorization"@ },
    ) {
        ("auth_missing"@, Severity::Medium)
    } else if ev.contains(EvidenceV::HttpStatus(400)) && any_validation_error(ev) {
        ("bad_payload"@, Severity::Low)
    } else {
        ("unknown"@, Severity::Low)
    }
}

proof fn lemma_has_kind_variant(ev: Seq<EvidenceV>)
    ensures
        has_kind(ev, EvidenceKind::DnsResolutionFailed) <==> any_dns_failure(ev),
        has_kind(ev, EvidenceKind::TlsHandshakeFailed) <==> any_tls_failure(ev),
        has_kind(ev, EvidenceKind::ConnectionTimeout) <==> any_timeout(ev),
        has_kind(ev, EvidenceKind::SignatureMismatch) <==> ev.contains(EvidenceV::SignatureMismatch),
        has_kind(ev, EvidenceKind::RetryAfterSecs) <==> any_retry_after(ev),
        has_kind(ev, EvidenceKind::JsonValidationError) <==> any_validation_error(ev),
{
    if has_kind(ev, EvidenceKind::SignatureMismatch) {
        let i = choose|i: int| 0 <= i < ev.len() && kind_of(#[trigger] ev[i])
            == EvidenceKind::SignatureMismatch;
        assert(ev[i] == EvidenceV::SignatureMismatch);
    }
    if ev.contains(EvidenceV::SignatureMismatch) {
        let i = choose|i: int| 0 <= i < ev.len() && ev[i] == EvidenceV::SignatureMismatch;
        assert(kind_of(ev[i]) == EvidenceKind::SignatureMismatch);
    }
    if any_dns_failure(ev) {
        let i = choose|i: int| 0 <= i < ev.len() && (#[trigger] ev[i]) is DnsResolutionFailed;
        assert(kind_of(ev[i]) == EvidenceKind::DnsResolutionFailed);
    }
    if any_tls_failure(ev) {
        let i = choose|i: int| 0 <= i < ev.len() && (#[trigger] ev[i]) is TlsHandshakeFailed;
        assert(kind_of(ev[i]) == EvidenceKind::TlsHandshakeFailed);
    }
    if any_timeout(ev) {
        let i = choose|i: int| 0 <= i < ev.len() && (#[trigger] ev[i]) is ConnectionTimeout;
        assert(kind_of(ev[i]) == EvidenceKind::ConnectionTimeout);
    }
    if any_retry_after(ev) {
        let i = choose|i: int| 0 <= i < ev.len() && (#[trigger] ev[i]) is RetryAfterSecs;
        assert(kind_of(ev[i]) == EvidenceKind::RetryAfterSecs);
    }
    if any_validation_error(ev) {
        let i = choose|i: int| 0 <= i < ev.len() && (#[trigger] ev[i]) is JsonValidationError;
        assert(kind_of(ev[i]) == EvidenceKind::JsonValidationError);
    }
}

/// A diagnosis names the first rule of the table whose trigger is in the
/// evidence, and carries that rule's severity: DNS failure and TLS failure
/// (critical), client timeout and signature mismatch (high), 429 with a
/// `Retry-After` and 401 without `Authorization` (medium), 400 with a
/// validation error (low), and otherwise `unknown` (low).
pub proof fn lemma_diagnosis_follows_rule_table(
    p: Seq<(Seq<char>, RuleProseV)>,
    name: Seq<char>,
    ev: Seq<EvidenceV>,
)
    ensures
        diagnosis_for(p, name, ev).rule == rule_table(ev).0,
        diagnosis_for(p, name, ev).severity == rule_table(ev).1,
        diagnosis_for(p, name, ev).case == name,
{
    lemma_has_kind_variant(ev);
    reveal_strlit("dns_failure");
    reveal_strlit("tls_failure");
    reveal_strlit("connection_timeout");
    reveal_strlit("webhook_signature");
    reveal_strlit("rate_limit");
    reveal_strlit("auth_missing");
    reveal_strlit("bad_payload");
    reveal_strlit("unknown");
}

/// Each severity renders as the lowercase name of its rank, and the two
/// provenance kinds render as their own labels; no two ranks render alike.
pub proof fn lemma_severity_labels()
    ensures
        severity_label(Severity::Low) == "low"@,
        severity_label(Severity::Medium) == "medium"@,
        severity_label(Severity::High) == "high"@,
        severity_label(Severity::Critical) == "critical"@,
        forall|a: Severity, b: Severity| a != b ==> severity_label(a) != severity_label(b),
        forall|r: Seq<char>|
            source_label(SeveritySourceV::AuthorJudgment { rationale: r }) == "author judgment"@,
        forall|r: Seq<char>|
            source_label(SeveritySourceV::DerivedFromEvidence { rationale: r })
                == "derived from evidence"@,
{
    reveal_strlit("low");
    reveal_strlit("medium");
    reveal_strlit("high");
    reveal_strlit("critical");
    assert("low"@.len() == 3 && "high"@.len() == 4 && "medium"@.len() == 6 && "critical"@.len()
        == 8);
    assert("low"@[0] != "high"@[0]);
}

proof fn lemma_first_dns_host(ev: Seq<EvidenceV>)
    ensures
        any_dns_failure(ev) ==> exists|i: int|
            0 <= i < ev.len() && (forall|j: int| 0 <= j < i ==> !((#[trigger] ev[j]) is DnsResolutionFailed))
                && (#[trigger] ev[i] matches EvidenceV::DnsResolutionFailed { host, .. }
                && first_dns_host(ev) == Some(host)),
    decreases ev.len(),
{
    if ev.len() > 0 && any_dns_failure(ev) {
        if !(ev[0] is DnsResolutionFailed) {
            let t = ev.drop_first();
            let k = choose|k: int| 0 <= k < ev.len() && (#[trigger] ev[k]) is DnsResolutionFailed;
            assert(t[k - 1] == ev[k]);
            lemma_first_dns_host(t);
            let i = choose|i: int|
                0 <= i < t.len() && (forall|j: int| 0 <= j < i ==> !((#[trigger] t[j]) is DnsResolutionFailed))
                    && (#[trigger] t[i] matches EvidenceV::DnsResolutionFailed { host, .. }
                    && first_dns_host(t) == Some(host));
            assert(ev[i + 1] == t[i]);
            assert forall|j: int| 0 <= j < i + 1 implies !((#[trigger] ev[j]) is DnsResolutionFailed) by {
                if j > 0 {
                    assert(ev[j] == t[j - 1]);
                }
            }
        }
    }
}

proof fn lemma_first_tls_peer(ev: Seq<EvidenceV>)
    ensures
        any_tls_failure(ev) ==> exists|i: int|
            0 <= i < ev.len() && (forall|j: int| 0 <= j < i ==> !((#[trigger] ev[j]) is TlsHandshakeFailed))
                && (#[trigger] ev[i] matches EvidenceV::TlsHandshakeFailed { peer, .. }
                && first_tls_peer(ev) == Some(peer)),
    decreases ev.len(),
{
    if ev.len() > 0 && any_tls_failure(ev) {
        if !(ev[0] is TlsHandshakeFailed) {
            let t = ev.drop_first();
            let k = choose|k: int| 0 <= k < ev.len() && (#[trigger] ev[k]) is TlsHandshakeFailed;
            assert(t[k - 1] == ev[k]);
            lemma_first_tls_peer(t);
            let i = choose|i: int|
                0 <= i < t.len() && (forall|j: int| 0 <= j < i ==> !((#[trigger] t[j]) is TlsHandshakeFailed))
                    && (#[trigger] t[i] matches EvidenceV::TlsHandshakeFailed { peer, .. }
                    && first_tls_peer(t) == Some(peer));
            assert(ev[i + 1] == t[i]);
            assert forall|j: int| 0 <= j < i + 1 implies !((#[trigger] ev[j]) is TlsHandshakeFailed) by {
                if j > 0 {
                    assert(ev[j] == t[j - 1]);
                }
            }
        }
    }
}

proof fn lemma_first_json_field(ev: Seq<EvidenceV>)
    ensures
        any_validation_error(ev) ==> exists|i: int|
            0 <= i < ev.len() && (forall|j: int| 0 <= j < i ==> !((#[trigger] ev[j]) is JsonValidationError))
                && (#[trigger] ev[i] matches EvidenceV::JsonValidationError { field, .. }
                && first_json_field(ev) == Some(field)),
    decreases ev.len(),
{
    if ev.len() > 0 && any_validation_error(ev) {
        if !(ev[0] is JsonValidationError) {
            let t = ev.drop_first();
            let k = choose|k: int| 0 <= k < ev.len() && (#[trigger] ev[k]) is JsonValidationError;
            assert(t[k - 1] == ev[k]);
            lemma_first_json_field(t);
            let i = choose|i: int|
                0 <= i < t.len() && (forall|j: int| 0 <= j < i ==> !((#[trigger] t[j]) is JsonValidationError))
                    && (#[trigger] t[i] matches EvidenceV::JsonValidationError { field, .. }
                    && first_json_field(t) == Some(field));
            assert(ev[i + 1] == t[i]);
            assert forall|j: int| 0 <= j < i + 1 implies !((#[trigger] ev[j]) is JsonValidationError) by {
                if j > 0 {
                    assert(ev[j] == t[j - 1]);
                }
            }
        }
    }
}

proof fn lemma_rule_name_injective()
    ensures
        forall|a: Rule, b: Rule| #[trigger] rule_name(a) == #[trigger] rule_name(b) ==> a == b,
{
    reveal_strlit("dns_failure");
    reveal_strlit("tls_failure");
    reveal_strlit("connection_timeout");
    reveal_strlit("webhook_signature");
    reveal_strlit("rate_limit");
    reveal_strlit("auth_missing");
    reveal_strlit("bad_payload");
    reveal_strlit("unknown");
    assert forall|a: Rule, b: Rule| #[trigger] rule_name(a) == #[trigger] rule_name(b) implies a
        == b by {
        let x = rule_name(a);
        let y = rule_name(b);
        if a != b {
            assert(x.len() != y.len() || x[0] != y[0]);
        }
    }
}

/// The prose of a diagnosis is its rule's entry in the table: the severity
/// rationale, hypotheses, unknowns, next steps and escalation note; the
/// reproduction command names the case; and the likely cause is the rule's
/// text, with the `{host}` (`{peer}`) placeholder of the DNS (TLS) rule
/// filled by the first DNS (TLS) failure of the evidence, and the
/// `{field}` placeholder of the bad-payload rule by the field of the first
/// validation error (its no-field text when that error names none).
pub proof fn lemma_diagnosis_prose_and_cause(
    p: Seq<(Seq<char>, RuleProseV)>,
    name: Seq<char>,
    ev: Seq<EvidenceV>,
)
    ensures
        ({
            let d = diagnosis_for(p, name, ev);
            let entry = rule_entry(p, rule_table(ev).0);
            &&& d.severity_source == SeveritySourceV::AuthorJudgment {
                rationale: entry.severity_rationale,
            }
            &&& d.hypotheses == entry.hypotheses
            &&& d.unknowns == entry.unknowns
            &&& d.next_steps == entry.next_steps
            &&& d.escalation_note == entry.escalation_note
            &&& d.reproduction == "cargo run -p llm-assisted-api-debugging-lab -- diagnose "@ + name
            &&& rule_table(ev).0 == "dns_failure"@ ==> exists|i: int|
                0 <= i < ev.len() && (forall|j: int|
                    0 <= j < i ==> !((#[trigger] ev[j]) is DnsResolutionFailed)) && (
                #[trigger] ev[i] matches EvidenceV::DnsResolutionFailed { host, .. }
                && d.likely_cause == replace_all(entry.likely_cause_template->0, "{host}"@, host))
            &&& rule_table(ev).0 == "tls_failure"@ ==> exists|i: int|
                0 <= i < ev.len() && (forall|j: int|
                    0 <= j < i ==> !((#[trigger] ev[j]) is TlsHandshakeFailed)) && (
                #[trigger] ev[i] matches EvidenceV::TlsHandshakeFailed { peer, .. }
                && d.likely_cause == replace_all(entry.likely_cause_template->0, "{peer}"@, peer))
            &&& rule_table(ev).0 == "bad_payload"@ ==> exists|i: int|
                0 <= i < ev.len() && (forall|j: int|
                    0 <= j < i ==> !((#[trigger] ev[j]) is JsonValidationError)) && (
                #[trigger] ev[i] matches EvidenceV::JsonValidationError { field, .. }
                && d.likely_cause == match field {
                    Some(f) => replace_all(entry.likely_cause_template_with_field->0, "{field}"@, f),
                    None => entry.likely_cause_template_no_field->0,
                })
            &&& (rule_table(ev).0 != "dns_failure"@ && rule_table(ev).0 != "tls_failure"@
                && rule_table(ev).0 != "bad_payload"@) ==> d.likely_cause == entry.likely_cause->0
        }),
{
    lemma_diagnosis_follows_rule_table(p, name, ev);
    lemma_has_kind_variant(ev);
    lemma_first_dns_host(ev);
    lemma_first_tls_peer(ev);
    lemma_first_json_field(ev);
    reveal_strlit("dns_failure");
    reveal_strlit("tls_failure");
    reveal_strlit("connection_timeout");
    reveal_strlit("webhook_signature");
    reveal_strlit("rate_limit");
    reveal_strlit("auth_missing");
    reveal_strlit("bad_payload");
    reveal_strlit("unknown");
    lemma_rule_name_injective();
    let d = diagnosis_for(p, name, ev);
    let r = selected_rule(ev);
    assert(rule_table(ev).0 == rule_name(r));
    assert(rule_name(Rule::DnsFailure) == "dns_failure"@);
    assert(rule_name(Rule::TlsFailure) == "tls_failure"@);
    assert(rule_name(Rule::BadPayload) == "bad_payload"@);
    let entry = rule_entry(p, rule_name(r));
    if r == Rule::DnsFailure {
        let i = choose|i: int|
            0 <= i < ev.len() && (forall|j: int| 0 <= j < i ==> !((#[trigger] ev[j]) is DnsResolutionFailed))
                && (#[trigger] ev[i] matches EvidenceV::DnsResolutionFailed { host, .. }
                && first_dns_host(ev) == Some(host));
        assert(ev[i] matches EvidenceV::DnsResolutionFailed { host, .. } && d.likely_cause
            == replace_all(entry.likely_cause_template->0, "{host}"@, host));
    }
    if r == Rule::TlsFailure {
        let i = choose|i: int|
            0 <= i < ev.len() && (forall|j: int| 0 <= j < i ==> !((#[trigger] ev[j]) is TlsHandshakeFailed))
                && (#[trigger] ev[i] matches EvidenceV::TlsHandshakeFailed { peer, .. }
                && first_tls_peer(ev) == Some(peer));
        assert(ev[i] matches EvidenceV::TlsHandshakeFailed { peer, .. } && d.likely_cause
            == replace_all(entry.likely_cause_template->0, "{peer}"@, peer));
    }
    if r == Rule::BadPayload {
        let i = choose|i: int|
            0 <= i < ev.len() && (forall|j: int| 0 <= j < i ==> !((#[trigger] ev[j]) is JsonValidationError))
                && (#[trigger] ev[i] matches EvidenceV::JsonValidationError { field, .. }
                && first_json_field(ev) == Some(field));
        assert(ev[i] matches EvidenceV::JsonValidationError { field, .. } && d.likely_cause
            == match field {
            Some(f) => replace_all(entry.likely_cause_template_with_field->0, "{field}"@, f),
            None => entry.likely_cause_template_no_field->0,
        });
    }
}

proof fn lemma_pick_kind_extends(out: Seq<EvidenceV>, ev: Seq<EvidenceV>, k: EvidenceKind)
    ensures
        pick_kind(out, ev, k).len() >= out.len(),
        pick_kind(out, ev, k).take(out.len() as int) == out,
        forall|i: int|
            out.len() <= i < pick_kind(out, ev, k).len() ==> kind_of(
                #[trigger] pick_kind(out, ev, k)[i],
            ) == k,
    decreases ev.len(),
{
    if ev.len() > 0 {
        lemma_pick_kind_extends(out, ev.drop_last(), k);
        let prev = pick_kind(out, ev.drop_last(), k);
        let e = ev.last();
        if kind_of(e) == k && !prev.contains(e) {
            let res = prev.push(e);
            assert(res.take(out.len() as int) =~= prev.take(out.len() as int));
            assert forall|i: int| out.len() <= i < res.len() implies kind_of(#[trigger] res[i])
                == k by {
                if i < prev.len() {
                    assert(res[i] == prev[i]);
                }
            }
        }
    } else {
        assert(out.take(out.len() as int) =~= out);
    }
}

proof fn lemma_picked_ordered(
    ev: Seq<EvidenceV>,
    kinds: Seq<EvidenceKind>,
    rank: spec_fn(EvidenceKind) -> int,
)
    requires
        forall|a: int, b: int| 0 <= a < b < kinds.len() ==> rank(kinds[a]) < rank(kinds[b]),
    ensures
        forall|i: int, j: int|
            0 <= i < j < picked(ev, kinds).len() ==> rank(kind_of(#[trigger] picked(ev, kinds)[i]))
                <= rank(kind_of(#[trigger] picked(ev, kinds)[j])),
    decreases kinds.len(),
{
    if kinds.len() > 0 {
        let ks = kinds.drop_last();
        let k = kinds.last();
        let prev = picked(ev, ks);
        let res = picked(ev, kinds);
        assert forall|a: int, b: int| 0 <= a < b < ks.len() implies rank(ks[a]) < rank(ks[b]) by {
            assert(ks[a] == kinds[a] && ks[b] == kinds[b]);
        }
        lemma_picked_ordered(ev, ks, rank);
        lemma_picked_exact(ev, ks);
        lemma_pick_kind_extends(prev, ev, k);
        assert forall|i: int, j: int| 0 <= i < j < res.len() implies rank(kind_of(#[trigger] res[i]))
            <= rank(kind_of(#[trigger] res[j])) by {
            if i < prev.len() {
                assert(res[i] == res.take(prev.len() as int)[i]);
                assert(prev.contains(prev[i]));
                let a = choose|a: int| 0 <= a < ks.len() && ks[a] == kind_of(prev[i]);
                assert(kinds[a] == ks[a]);
                assert(rank(kind_of(res[i])) < rank(k));
            }
            if j < prev.len() {
                assert(res[j] == res.take(prev.len() as int)[j]);
            }
        }
    }
}

/// The position, in the documented order of the evidence a rule surfaces,
/// of the variant of `x`, or `-1` when the rule does not surface it.
pub open spec fn surfaced_rank(rule: Seq<char>, x: EvidenceV) -> int {
    if rule == "dns_failure"@ {
        if x is DnsResolutionFailed { 0 } else if x is ConnectionTimeout { 1 } else if x is HttpStatus { 2 } else { -1 }
    } else if rule == "tls_failure"@ {
        if x is TlsHandshakeFailed { 0 } else if x is DnsResolutionFailed { 1 } else if x is HttpStatus { 2 } else { -1 }
    } else if rule == "connection_timeout"@ {
        if x is ConnectionTimeout { 0 } else if x is HttpStatus { 1 } else { -1 }
    } else if rule == "webhook_signature"@ {
        if x is HttpStatus { 0 } else if x is SignatureMismatch { 1 } else if x is ClockDriftSecs { 2 } else if x is BodyMutatedBeforeVerification { 3 } else { -1 }
    } else if rule == "rate_limit"@ {
        if x is HttpStatus { 0 } else if x is RetryAfterSecs { 1 } else if x is RateLimitObserved { 2 } else { -1 }
    } else if rule == "auth_missing"@ {
        if x is HttpStatus { 0 } else if x is HeaderMissing { 1 } else { -1 }
    } else if rule == "bad_payload"@ {
        if x is HttpStatus { 0 } else if x is JsonValidationError { 1 } else { -1 }
    } else {
        0
    }
}

/// The rank of a variant in the documented order of rule `rule`.
spec fn kind_rank(rule: Seq<char>, k: EvidenceKind) -> int {
    surfaced_rank(rule, kind_sample(k))
}

/// An evidence value of variant `k`.
spec fn kind_sample(k: EvidenceKind) -> EvidenceV {
    match k {
        EvidenceKind::HttpStatus => EvidenceV::HttpStatus(0),
        EvidenceKind::HeaderPresent => EvidenceV::HeaderPresent { name: seq![], value: None },
        EvidenceKind::HeaderMissing => EvidenceV::HeaderMissing { name: seq![] },
        EvidenceKind::BodyMutatedBeforeVerification => EvidenceV::BodyMutatedBeforeVerification,
        EvidenceKind::SignatureMismatch => EvidenceV::SignatureMismatch,
        EvidenceKind::ClockDriftSecs => EvidenceV::ClockDriftSecs { observed: 0, tolerance_secs: 0 },
        EvidenceKind::RetryAfterSecs => EvidenceV::RetryAfterSecs(0),
        EvidenceKind::RateLimitObserved => EvidenceV::RateLimitObserved { observed_rps: 0, limit_rps: 0 },
        EvidenceKind::DnsResolutionFailed => EvidenceV::DnsResolutionFailed { host: seq![], message: seq![] },
        EvidenceKind::TlsHandshakeFailed => EvidenceV::TlsHandshakeFailed { peer: seq![], reason: seq![] },
        EvidenceKind::ConnectionTimeout => EvidenceV::ConnectionTimeout { elapsed_ms: 0, timeout_ms: 0 },
        EvidenceKind::JsonValidationError => EvidenceV::JsonValidationError { field: None, message: seq![] },
    }
}

proof fn lemma_pinned_kinds_documented(r: Rule)
    requires
        r != Rule::Unknown,
    ensures
        forall|x: EvidenceV| #[trigger] surfaced_rank(rule_name(r), x) == kind_rank(rule_name(r), kind_of(x)),
        forall|x: EvidenceV| #[trigger] pinned_kinds(r).contains(kind_of(x)) <==> surfaced_rank(rule_name(r), x) >= 0,
        forall|a: int, b: int| 0 <= a < b < pinned_kinds(r).len() ==> kind_rank(rule_name(r), pinned_kinds(r)[a]) < kind_rank(rule_name(r), pinned_kinds(r)[b]),
{
    lemma_rule_name_injective();
    reveal_strlit("dns_failure");
    reveal_strlit("tls_failure");
    reveal_strlit("connection_timeout");
    reveal_strlit("webhook_signature");
    reveal_strlit("rate_limit");
    reveal_strlit("auth_missing");
    reveal_strlit("bad_payload");
    reveal_strlit("unknown");
    assert(rule_name(Rule::DnsFailure) == "dns_failure"@);
    assert(rule_name(Rule::TlsFailure) == "tls_failure"@);
    assert(rule_name(Rule::ConnectionTimeout) == "connection_timeout"@);
    assert(rule_name(Rule::WebhookSignature) == "webhook_signature"@);
    assert(rule_name(Rule::RateLimit) == "rate_limit"@);
    assert(rule_name(Rule::AuthMissing) == "auth_missing"@);
    assert(rule_name(Rule::BadPayload) == "bad_payload"@);
    let ks = pinned_kinds(r);
    let rule = rule_name(r);
    match r {
        Rule::DnsFailure => {
            assert(rule == "dns_failure"@);
            assert(ks == seq![EvidenceKind::DnsResolutionFailed, EvidenceKind::ConnectionTimeout, EvidenceKind::HttpStatus]);
            assert(kind_rank(rule, EvidenceKind::DnsResolutionFailed) == 0);
            assert(kind_rank(rule, EvidenceKind::ConnectionTimeout) == 1);
            assert(kind_rank(rule, EvidenceKind::HttpStatus) == 2);
            assert forall|x: EvidenceV| #[trigger] ks.contains(kind_of(x)) <==> surfaced_rank(rule, x) >= 0 by {
                if ks.contains(kind_of(x)) {
                    let i = choose|i: int| 0 <= i < ks.len() && ks[i] == kind_of(x);
                }
                if x is DnsResolutionFailed {
                    assert(ks[0] == kind_of(x));
                } else if x is ConnectionTimeout {
                    assert(ks[1] == kind_of(x));
                } else if x is HttpStatus {
                    assert(ks[2] == kind_of(x));
                }
            }
        },
        Rule::TlsFailure => {
            assert(rule == "tls_failure"@);
            assert(ks == seq![EvidenceKind::TlsHandshakeFailed, EvidenceKind::DnsResolutionFailed, EvidenceKind::HttpStatus]);
            assert(kind_rank(rule, EvidenceKind::TlsHandshakeFailed) == 0);
            assert(kind_rank(rule, EvidenceKind::DnsResolutionFailed) == 1);
            assert(kind_rank(rule, EvidenceKind::HttpStatus) == 2);
            assert forall|x: EvidenceV| #[trigger] ks.contains(kind_of(x)) <==> surfaced_rank(rule, x) >= 0 by {
                if ks.contains(kind_of(x)) {
                    let i = choose|i: int| 0 <= i < ks.len() && ks[i] == kind_of(x);
                }
                if x is TlsHandshakeFailed {
                    assert(ks[0] == kind_of(x));
                } else if x is DnsResolutionFailed {
                    assert(ks[1] == kind_of(x));
                } else if x is HttpStatus {
                    assert(ks[2] == kind_of(x));
                }
            }
        },
        Rule::ConnectionTimeout => {
            assert(rule == "connection_timeout"@);
            assert(ks == seq![EvidenceKind::ConnectionTimeout, EvidenceKind::HttpStatus]);
            assert(kind_rank(rule, EvidenceKind::ConnectionTimeout) == 0);
            assert(kind_rank(rule, EvidenceKind::HttpStatus) == 1);
            assert forall|x: EvidenceV| #[trigger] ks.contains(kind_of(x)) <==> surfaced_rank(rule, x) >= 0 by {
                if ks.contains(kind_of(x)) {
                    let i = choose|i: int| 0 <= i < ks.len() && ks[i] == kind_of(x);
                }
                if x is ConnectionTimeout {
                    assert(ks[0] == kind_of(x));
                } else if x is HttpStatus {
                    assert(ks[1] == kind_of(x));
                }
            }
        },
        Rule::WebhookSignature => {
            assert(rule == "webhook_signature"@);
            assert(ks == seq![EvidenceKind::HttpStatus, EvidenceKind::SignatureMismatch, EvidenceKind::ClockDriftSecs, EvidenceKind::BodyMutatedBeforeVerification]);
            assert(kind_rank(rule, EvidenceKind::HttpStatus) == 0);
            assert(kind_rank(rule, EvidenceKind::SignatureMismatch) == 1);
            assert(kind_rank(rule, EvidenceKind::ClockDriftSecs) == 2);
            assert(kind_rank(rule, EvidenceKind::BodyMutatedBeforeVerification) == 3);
            assert forall|x: EvidenceV| #[trigger] ks.contains(kind_of(x)) <==> surfaced_rank(rule, x) >= 0 by {
                if ks.contains(kind_of(x)) {
                    let i = choose|i: int| 0 <= i < ks.len() && ks[i] == kind_of(x);
                }
                if x is HttpStatus {
                    assert(ks[0] == kind_of(x));
                } else if x is SignatureMismatch {
                    assert(ks[1] == kind_of(x));
                } else if x is ClockDriftSecs {
                    assert(ks[2] == kind_of(x));
                } else if x is BodyMutatedBeforeVerification {
                    assert(ks[3] == kind_of(x));
                }
            }
        },
        Rule::RateLimit => {
            assert(rule == "rate_limit"@);
            assert(ks == seq![EvidenceKind::HttpStatus, EvidenceKind::RetryAfterSecs, EvidenceKind::RateLimitObserved]);
            assert(kind_rank(rule, EvidenceKind::HttpStatus) == 0);
            assert(kind_rank(rule, EvidenceKind::RetryAfterSecs) == 1);
            assert(kind_rank(rule, EvidenceKind::RateLimitObserved) == 2);
            assert forall|x: EvidenceV| #[trigger] ks.contains(kind_of(x)) <==> surfaced_rank(rule, x) >= 0 by {
                if ks.contains(kind_of(x)) {
                    let i = choose|i: int| 0 <= i < ks.len() && ks[i] == kind_of(x);
                }
                if x is HttpStatus {
                    assert(ks[0] == kind_of(x));
                } else if x is RetryAfterSecs {
                    assert(ks[1] == kind_of(x));
                } else if x is RateLimitObserved {
                    assert(ks[2] == kind_of(x));
                }
            }
        },
        Rule::AuthMissing => {
            assert(rule == "auth_missing"@);
            assert(ks == seq![EvidenceKind::HttpStatus, EvidenceKind::HeaderMissing]);
            assert(kind_rank(rule, EvidenceKind::HttpStatus) == 0);
            assert(kind_rank(rule, EvidenceKind::HeaderMissing) == 1);
            assert forall|x: EvidenceV| #[trigger] ks.contains(kind_of(x)) <==> surfaced_rank(rule, x) >= 0 by {
                if ks.contains(kind_of(x)) {
                    let i = choose|i: int| 0 <= i < ks.len() && ks[i] == kind_of(x);
                }
                if x is HttpStatus {
                    assert(ks[0] == kind_of(x));
                } else if x is HeaderMissing {
                    assert(ks[1] == kind_of(x));
                }
            }
        },
        Rule::BadPayload => {
            assert(rule == "bad_payload"@);
            assert(ks == seq![EvidenceKind::HttpStatus, EvidenceKind::JsonValidationError]);
            assert(kind_rank(rule, EvidenceKind::HttpStatus) == 0);
            assert(kind_rank(rule, EvidenceKind::JsonValidationError) == 1);
            assert forall|x: EvidenceV| #[trigger] ks.contains(kind_of(x)) <==> surfaced_rank(rule, x) >= 0 by {
                if ks.contains(kind_of(x)) {
                    let i = choose|i: int| 0 <= i < ks.len() && ks[i] == kind_of(x);
                }
                if x is HttpStatus {
                    assert(ks[0] == kind_of(x));
                } else if x is JsonValidationError {
                    assert(ks[1] == kind_of(x));
                }
            }
        },
        Rule::Unknown => {},
    }
}

/// Each rule other than the fallback surfaces exactly the input items of
/// its documented variants, each once, grouped in the documented order
/// ([`surfaced_rank`]); the fallback surfaces the input as it is.
pub proof fn lemma_surfaced_evidence(
    p: Seq<(Seq<char>, RuleProseV)>,
    name: Seq<char>,
    ev: Seq<EvidenceV>,
)
    ensures
        ({
            let d = diagnosis_for(p, name, ev);
            let rule = rule_table(ev).0;
            &&& rule == "unknown"@ ==> d.evidence == ev
            &&& rule != "unknown"@ ==> d.evidence.no_duplicates()
            &&& rule != "unknown"@ ==> forall|x: EvidenceV| #[trigger] d.evidence.contains(x)
                <==> ev.contains(x) && surfaced_rank(rule, x) >= 0
            &&& rule != "unknown"@ ==> forall|i: int, j: int| 0 <= i < j < d.evidence.len()
                ==> surfaced_rank(rule, #[trigger] d.evidence[i]) <= surfaced_rank(rule, #[trigger] d.evidence[j])
        }),
{
    lemma_diagnosis_follows_rule_table(p, name, ev);
    lemma_rule_name_injective();
    assert(rule_name(Rule::Unknown) == "unknown"@);
    let r = selected_rule(ev);
    let d = diagnosis_for(p, name, ev);
    if r != Rule::Unknown {
        let ks = pinned_kinds(r);
        let rule = rule_name(r);
        lemma_pinned_kinds_documented(r);
        lemma_picked_exact(ev, ks);
        let rank = |k: EvidenceKind| kind_rank(rule, k);
        assert forall|a: int, b: int| 0 <= a < b < ks.len() implies rank(ks[a]) < rank(ks[b]) by {}
        lemma_picked_ordered(ev, ks, rank);
        assert(d.evidence == picked(ev, ks));
        assert forall|i: int, j: int| 0 <= i < j < d.evidence.len() implies surfaced_rank(rule, #[trigger] d.evidence[i])
            <= surfaced_rank(rule, #[trigger] d.evidence[j]) by {
            assert(rank(kind_of(d.evidence[i])) <= rank(kind_of(d.evidence[j])));
        }
    }
}

} // verus!
