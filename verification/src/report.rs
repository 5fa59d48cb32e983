//! Human-readable report renderer.
//!
//! Pure: takes a [`Diagnosis`], returns a `String`. Unlike the prompt
//! renderer, this module does not sanitize evidence: its output is read by
//! humans, who benefit from seeing the literal log message.

use vstd::prelude::*;
use vstd::string::StringExecFns;
use crate::diagnose::{
    severity_label, source_label, source_rationale, Diagnosis, DiagnosisV,
};
use crate::evidence::{evs, Evidence, EvidenceV};
use crate::text::{decimal, push_decimal, push_signed_decimal, signed_decimal, strs_view};

verus! {

/// One line of human-readable text for an evidence item.
pub open spec fn evidence_line(e: EvidenceV) -> Seq<char> {
    match e {
        EvidenceV::HttpStatus(code) => "HTTP status: "@ + decimal(code as nat),
        EvidenceV::HeaderPresent { name, value } => match value {
            Some(v) => "Request header present: "@ + name + " = "@ + v,
            None => "Request header present: "@ + name,
        },
        EvidenceV::HeaderMissing { name } => "Request header missing: "@ + name,
        EvidenceV::BodyMutatedBeforeVerification =>
            "Request body was modified by middleware before verification."@,
        EvidenceV::SignatureMismatch => "HMAC signature verification failed."@,
        EvidenceV::ClockDriftSecs { observed, tolerance_secs } => "Clock drift "@
            + signed_decimal(observed as int) + "s exceeds tolerance "@ + decimal(
            tolerance_secs as nat,
        ) + "s."@,
        EvidenceV::RetryAfterSecs(secs) => "Retry-After header: "@ + decimal(secs as nat) + "s"@,
        EvidenceV::RateLimitObserved { observed_rps, limit_rps } => "Observed rate "@ + decimal(
            observed_rps as nat,
        ) + " rps exceeds account limit "@ + decimal(limit_rps as nat) + " rps."@,
        EvidenceV::DnsResolutionFailed { host, message } => "DNS resolution failed for "@ + host
            + ": "@ + message,
        EvidenceV::TlsHandshakeFailed { peer, reason } => "TLS handshake to "@ + peer
            + " failed: "@ + reason,
        EvidenceV::ConnectionTimeout { elapsed_ms, timeout_ms } => "Client timeout: aborted after "@
            + decimal(elapsed_ms as nat) + "ms (timeout "@ + decimal(timeout_ms as nat) + "ms)."@,
        EvidenceV::JsonValidationError { field, message } => match field {
            Some(f) => "JSON validation error on field `"@ + f + "`: "@ + message,
            None => "JSON validation error: "@ + message,
        },
    }
}

/// Format a single evidence item as one line of human-readable text.
pub fn render_evidence(e: &Evidence) -> (r: String)
    ensures
        r@ == evidence_line(e@),
{
    let mut s = String::new();
    match e {
        Evidence::HttpStatus(code) => {
            s.append("HTTP status: ");
            push_decimal(&mut s, *code as u64);
        },
        Evidence::HeaderPresent { name, value } => {
            s.append("Request header present: ");
            s.append(name.as_str());
            if let Some(v) = value {
                s.append(" = ");
                s.append(v.as_str());
            }
        },
        Evidence::HeaderMissing { name } => {
            s.append("Request header missing: ");
            s.append(name.as_str());
        },
        Evidence::BodyMutatedBeforeVerification => {
            s.append("Request body was modified by middleware before verification.");
        },
        Evidence::SignatureMismatch => {
            s.append("HMAC signature verification failed.");
        },
        Evidence::ClockDriftSecs { observed, tolerance_secs } => {
            s.append("Clock drift ");
            push_signed_decimal(&mut s, *observed);
            s.append("s exceeds tolerance ");
            push_decimal(&mut s, *tolerance_secs);
            s.append("s.");
        },
        Evidence::RetryAfterSecs(secs) => {
            s.append("Retry-After header: ");
            push_decimal(&mut s, *secs);
            s.append("s");
        },
        Evidence::RateLimitObserved { observed_rps, limit_rps } => {
            s.append("Observed rate ");
            push_decimal(&mut s, *observed_rps as u64);
            s.append(" rps exceeds account limit ");
            push_decimal(&mut s, *limit_rps as u64);
            s.append(" rps.");
        },
        Evidence::DnsResolutionFailed { host, message } => {
            s.append("DNS resolution failed for ");
            s.append(host.as_str());
            s.append(": ");
            s.append(message.as_str());
        },
        Evidence::TlsHandshakeFailed { peer, reason } => {
            s.append("TLS handshake to ");
            s.append(peer.as_str());
            s.append(" failed: ");
            s.append(reason.as_str());
        },
        Evidence::ConnectionTimeout { elapsed_ms, timeout_ms } => {
            s.append("Client timeout: aborted after ");
            push_decimal(&mut s, *elapsed_ms);
            s.append("ms (timeout ");
            push_decimal(&mut s, *timeout_ms);
            s.append("ms).");
        },
        Evidence::JsonValidationError { field, message } => {
            match field {
                Some(f) => {
                    s.append("JSON validation error on field `");
                    s.append(f.as_str());
                    s.append("`: ");
                },
                None => {
                    s.append("JSON validation error: ");
                },
            }
            s.append(message.as_str());
        },
    }
    assert(s@ =~= evidence_line(e@));
    s
}

/// `- <line>\n` for each evidence item, in order.
pub open spec fn evidence_bullets(ev: Seq<EvidenceV>) -> Seq<char>
    decreases ev.len(),
{
    if ev.len() == 0 {
        seq![]
    } else {
        evidence_bullets(ev.drop_last()) + "- "@ + evidence_line(ev.last()) + "\n"@
    }
}

/// `- <item>\n` for each string, in order.
pub open spec fn text_bullets(xs: Seq<Seq<char>>) -> Seq<char>
    decreases xs.len(),
{
    if xs.len() == 0 {
        seq![]
    } else {
        text_bullets(xs.drop_last()) + "- "@ + xs.last() + "\n"@
    }
}

/// `<n>. <item>\n` for each string, numbered from 1.
pub open spec fn numbered_lines(xs: Seq<Seq<char>>) -> Seq<char>
    decreases xs.len(),
{
    if xs.len() == 0 {
        seq![]
    } else {
        numbered_lines(xs.drop_last()) + decimal(xs.len()) + ". "@ + xs.last() + "\n"@
    }
}

/// The bullet list of `xs`, or `- (none)` when it is empty.
pub open spec fn text_list(xs: Seq<Seq<char>>) -> Seq<char> {
    if xs.len() == 0 {
        "- (none)\n"@
    } else {
        text_bullets(xs)
    }
}

pub(crate) fn push_evidence_bullets(s: &mut String, ev: &Vec<Evidence>)
    ensures
        final(s)@ == old(s)@ + evidence_bullets(evs(ev@)),
{
    let mut i: usize = 0;
    assert(evs(ev@).take(0) =~= Seq::<EvidenceV>::empty());
    assert(old(s)@ + evidence_bullets(Seq::<EvidenceV>::empty()) =~= old(s)@);
    while i < ev.len()
        invariant
            i <= ev.len(),
            s@ == old(s)@ + evidence_bullets(evs(ev@).take(i as int)),
        decreases ev.len() - i,
    {
        assert(evs(ev@).take(i + 1).drop_last() =~= evs(ev@).take(i as int));
        assert(evs(ev@).take(i + 1).last() == ev@[i as int]@);
        s.append("- ");
        let line = render_evidence(&ev[i]);
        s.append(line.as_str());
        s.append("\n");
        i = i + 1;
        assert(s@ =~= old(s)@ + evidence_bullets(evs(ev@).take(i as int)));
    }
    assert(evs(ev@).take(i as int) =~= evs(ev@));
}

pub(crate) fn push_text_list(s: &mut String, xs: &Vec<String>)
    ensures
        final(s)@ == old(s)@ + text_list(strs_view(xs@)),
{
    if xs.len() == 0 {
        s.append("- (none)\n");
        return;
    }
    let mut i: usize = 0;
    assert(strs_view(xs@).take(0) =~= Seq::<Seq<char>>::empty());
    assert(old(s)@ + text_bullets(Seq::<Seq<char>>::empty()) =~= old(s)@);
    while i < xs.len()
        invariant
            i <= xs.len(),
            s@ == old(s)@ + text_bullets(strs_view(xs@).take(i as int)),
        decreases xs.len() - i,
    {
        assert(strs_view(xs@).take(i + 1).drop_last() =~= strs_view(xs@).take(i as int));
        assert(strs_view(xs@).take(i + 1).last() == xs@[i as int]@);
        s.append("- ");
        s.append(xs[i].as_str());
        s.append("\n");
        i = i + 1;
        assert(s@ =~= old(s)@ + text_bullets(strs_view(xs@).take(i as int)));
    }
    assert(strs_view(xs@).take(i as int) =~= strs_view(xs@));
}

fn push_numbered_lines(s: &mut String, xs: &Vec<String>)
    ensures
        final(s)@ == old(s)@ + numbered_lines(strs_view(xs@)),
{
    let mut i: usize = 0;
    assert(strs_view(xs@).take(0) =~= Seq::<Seq<char>>::empty());
    assert(old(s)@ + numbered_lines(Seq::<Seq<char>>::empty()) =~= old(s)@);
    while i < xs.len()
        invariant
            i <= xs.len(),
            s@ == old(s)@ + numbered_lines(strs_view(xs@).take(i as int)),
        decreases xs.len() - i,
    {
        assert(strs_view(xs@).take(i + 1).drop_last() =~= strs_view(xs@).take(i as int));
        assert(strs_view(xs@).take(i + 1).last() == xs@[i as int]@);
        assert(strs_view(xs@).take(i + 1).len() == i + 1);
        push_decimal(s, (i as u64) + 1);
        s.append(". ");
        s.append(xs[i].as_str());
        s.append("\n");
        i = i + 1;
        assert(s@ =~= old(s)@ + numbered_lines(strs_view(xs@).take(i as int)));
    }
    assert(strs_view(xs@).take(i as int) =~= strs_view(xs@));
}

/// The compact summary: case, rule, severity with its provenance label,
/// likely cause, the evidence list (omitted when empty) and the
/// reproduction command.
pub open spec fn short_text(d: DiagnosisV) -> Seq<char> {
    "CASE: "@ + d.case + "\n"@ + "RULE: "@ + d.rule + "\n"@ + "SEVERITY: "@ + severity_label(
        d.severity,
    ) + " ("@ + source_label(d.severity_source) + ")\n"@ + "LIKELY CAUSE: "@ + d.likely_cause
        + "\n"@ + (if d.evidence.len() > 0 {
        "EVIDENCE:\n"@ + evidence_bullets(d.evidence)
    } else {
        seq![]
    }) + "REPRODUCTION:\n"@ + d.reproduction + "\n"@
}

/// Compact one-screen summary used by the `diagnose` subcommand.
pub fn render_short(d: &Diagnosis) -> (r: String)
    ensures
        r@ == short_text(d@),
{
    let mut s = String::new();
    s.append("CASE: ");
    s.append(d.case.as_str());
    s.append("\n");
    s.append("RULE: ");
    s.append(d.rule);
    s.append("\n");
    s.append("SEVERITY: ");
    s.append(d.severity.as_str());
    s.append(" (");
    s.append(d.severity_source.label());
    s.append(")\n");
    s.append("LIKELY CAUSE: ");
    s.append(d.likely_cause.as_str());
    s.append("\n");
    let ghost head = s@;
    if d.evidence.len() > 0 {
        s.append("EVIDENCE:\n");
        push_evidence_bullets(&mut s, &d.evidence);
    }
    assert(s@ =~= head + (if d@.evidence.len() > 0 {
        "EVIDENCE:\n"@ + evidence_bullets(d@.evidence)
    } else {
        seq![]
    }));
    s.append("REPRODUCTION:\n");
    s.append(d.reproduction.as_str());
    s.append("\n");
    assert(s@ =~= short_text(d@));
    s
}

/// The header lines of the full report, through the blank line after the
/// likely cause.
pub open spec fn report_head(d: DiagnosisV) -> Seq<char> {
    "CASE: "@ + d.case + "\n"@ + "RULE: "@ + d.rule + "\n"@ + "SEVERITY: "@ + severity_label(
        d.severity,
    ) + " ("@ + source_label(d.severity_source) + ": "@ + source_rationale(d.severity_source)
        + ")\n"@ + "LIKELY CAUSE: "@ + d.likely_cause + "\n"@ + "\n"@
}

/// The evidence list of the full report, or `- (none collected)`.
pub open spec fn report_evidence(ev: Seq<EvidenceV>) -> Seq<char> {
    "EVIDENCE:\n"@ + (if ev.len() == 0 {
        "- (none collected)\n"@
    } else {
        evidence_bullets(ev)
    }) + "\n"@
}

/// The full report: everything in the summary plus the severity rationale,
/// hypotheses, unknowns, numbered next steps and the escalation note.
pub open spec fn report_text(d: DiagnosisV) -> Seq<char> {
    report_head(d) + report_evidence(d.evidence)
        + "HYPOTHESES (consistent with evidence; not asserted as fact):\n"@ + text_list(
        d.hypotheses,
    ) + "\n"@ + "UNKNOWNS (do not invent answers):\n"@ + text_list(d.unknowns) + "\n"@
        + "REPRODUCTION:\n"@ + d.reproduction + "\n\n"@ + "NEXT STEPS:\n"@ + numbered_lines(
        d.next_steps,
    ) + "\n"@ + "ESCALATION NOTE:\n"@ + d.escalation_note + "\n"@
}

fn push_report_head(s: &mut String, d: &Diagnosis)
    ensures
        final(s)@ == old(s)@ + report_head(d@),
{
    s.append("CASE: ");
    s.append(d.case.as_str());
    s.append("\n");
    s.append("RULE: ");
    s.append(d.rule);
    s.append("\n");
    s.append("SEVERITY: ");
    s.append(d.severity.as_str());
    s.append(" (");
    s.append(d.severity_source.label());
    s.append(": ");
    s.append(d.severity_source.rationale());
    s.append(")\n");
    s.append("LIKELY CAUSE: ");
    s.append(d.likely_cause.as_str());
    s.append("\n");
    s.append("\n");
    assert(s@ =~= old(s)@ + report_head(d@));
}

fn push_report_evidence(s: &mut String, ev: &Vec<Evidence>)
    ensures
        final(s)@ == old(s)@ + report_evidence(evs(ev@)),
{
    s.append("EVIDENCE:\n");
    let ghost mid = s@;
    if ev.len() == 0 {
        s.append("- (none collected)\n");
    } else {
        push_evidence_bullets(s, ev);
    }
    s.append("\n");
    assert(s@ =~= old(s)@ + report_evidence(evs(ev@)));
}

/// Full human-readable report for the `report` subcommand.
pub fn render_report(d: &Diagnosis) -> (r: String)
    ensures
        r@ == report_text(d@),
{
    let mut s = String::new();
    push_report_head(&mut s, d);
    push_report_evidence(&mut s, &d.evidence);
    s.append("HYPOTHESES (consistent with evidence; not asserted as fact):\n");
    push_text_list(&mut s, &d.hypotheses);
    s.append("\n");
    s.append("UNKNOWNS (do not invent answers):\n");
    push_text_list(&mut s, &d.unknowns);
    s.append("\n");
    s.append("REPRODUCTION:\n");
    s.append(d.reproduction.as_str());
    s.append("\n\n");
    s.append("NEXT STEPS:\n");
    push_numbered_lines(&mut s, &d.next_steps);
    s.append("\n");
    s.append("ESCALATION NOTE:\n");
    s.append(d.escalation_note.as_str());
    s.append("\n");
    assert(s@ =~= report_text(d@));
    s
}

// ---------------------------------------------------------------------
// Laws
// ---------------------------------------------------------------------

/// Each string of `xs`, in order, on a line of its own after `- `.
pub open spec fn dash_lines(xs: Seq<Seq<char>>) -> Seq<char>
    decreases xs.len(),
{
    if xs.len() == 0 {
        seq![]
    } else {
        dash_lines(xs.drop_last()) + "- "@ + xs.last() + "\n"@
    }
}

/// The lines of `xs`, or the single line `- (none)` for an empty list.
pub open spec fn listed(xs: Seq<Seq<char>>) -> Seq<char> {
    if xs.len() == 0 {
        "- (none)\n"@
    } else {
        dash_lines(xs)
    }
}

/// Each string of `xs`, in order, after its position counted from 1.
pub open spec fn counted_lines(xs: Seq<Seq<char>>) -> Seq<char>
    decreases xs.len(),
{
    if xs.len() == 0 {
        seq![]
    } else {
        counted_lines(xs.drop_last()) + decimal(xs.len()) + ". "@ + xs.last() + "\n"@
    }
}

/// The human-readable line of each evidence item, in order.
pub open spec fn evidence_lines(ev: Seq<EvidenceV>) -> Seq<Seq<char>> {
    ev.map_values(|e: EvidenceV| evidence_line(e))
}

pub(crate) proof fn lemma_text_bullets_are_dash_lines(xs: Seq<Seq<char>>)
    ensures
        text_bullets(xs) == dash_lines(xs),
        text_list(xs) == listed(xs),
        numbered_lines(xs) == counted_lines(xs),
    decreases xs.len(),
{
    if xs.len() > 0 {
        lemma_text_bullets_are_dash_lines(xs.drop_last());
    }
}

proof fn lemma_evidence_bullets_are_dash_lines(ev: Seq<EvidenceV>)
    ensures
        evidence_bullets(ev) == dash_lines(evidence_lines(ev)),
    decreases ev.len(),
{
    if ev.len() > 0 {
        lemma_evidence_bullets_are_dash_lines(ev.drop_last());
        assert(evidence_lines(ev).drop_last() =~= evidence_lines(ev.drop_last()));
    }
}

/// The full report lays out the diagnosis in fixed sections: the case, the
/// rule, the severity with its provenance and rationale, and the likely
/// cause; the rendered evidence items in order (or `- (none collected)`);
/// the diagnosis's hypotheses under the HYPOTHESES header and its unknowns
/// under the UNKNOWNS header (or `- (none)`); the reproduction command; the
/// next steps numbered from 1; and the escalation note.
pub proof fn lemma_report_sections(d: DiagnosisV)
    ensures
        report_text(d) == "CASE: "@ + d.case + "\n"@ + "RULE: "@ + d.rule + "\n"@ + "SEVERITY: "@
            + severity_label(d.severity) + " ("@ + source_label(d.severity_source) + ": "@
            + source_rationale(d.severity_source) + ")\n"@ + "LIKELY CAUSE: "@ + d.likely_cause
            + "\n"@ + "\n"@ + "EVIDENCE:\n"@ + (if d.evidence.len() == 0 {
            "- (none collected)\n"@
        } else {
            dash_lines(evidence_lines(d.evidence))
        }) + "\n"@ + "HYPOTHESES (consistent with evidence; not asserted as fact):\n"@ + listed(
            d.hypotheses,
        ) + "\n"@ + "UNKNOWNS (do not invent answers):\n"@ + listed(d.unknowns) + "\n"@
            + "REPRODUCTION:\n"@ + d.reproduction + "\n\n"@ + "NEXT STEPS:\n"@ + counted_lines(
            d.next_steps,
        ) + "\n"@ + "ESCALATION NOTE:\n"@ + d.escalation_note + "\n"@,
{
    lemma_text_bullets_are_dash_lines(d.hypotheses);
    lemma_text_bullets_are_dash_lines(d.unknowns);
    lemma_text_bullets_are_dash_lines(d.next_steps);
    lemma_evidence_bullets_are_dash_lines(d.evidence);
    assert(report_text(d) =~= "CASE: "@ + d.case + "\n"@ + "RULE: "@ + d.rule + "\n"@
        + "SEVERITY: "@ + severity_label(d.severity) + " ("@ + source_label(d.severity_source)
        + ": "@ + source_rationale(d.severity_source) + ")\n"@ + "LIKELY CAUSE: "@
        + d.likely_cause + "\n"@ + "\n"@ + "EVIDENCE:\n"@ + (if d.evidence.len() == 0 {
        "- (none collected)\n"@
    } else {
        dash_lines(evidence_lines(d.evidence))
    }) + "\n"@ + "HYPOTHESES (consistent with evidence; not asserted as fact):\n"@ + listed(
        d.hypotheses,
    ) + "\n"@ + "UNKNOWNS (do not invent answers):\n"@ + listed(d.unknowns) + "\n"@
        + "REPRODUCTION:\n"@ + d.reproduction + "\n\n"@ + "NEXT STEPS:\n"@ + counted_lines(
        d.next_steps,
    ) + "\n"@ + "ESCALATION NOTE:\n"@ + d.escalation_note + "\n"@);
}

/// The short summary holds the case, the rule, the severity with its
/// provenance label, the likely cause, the rendered evidence items in order
/// (the section is left out when there are none), and the reproduction
/// command.
pub proof fn lemma_short_sections(d: DiagnosisV)
    ensures
        short_text(d) == "CASE: "@ + d.case + "\n"@ + "RULE: "@ + d.rule + "\n"@ + "SEVERITY: "@
            + severity_label(d.severity) + " ("@ + source_label(d.severity_source) + ")\n"@
            + "LIKELY CAUSE: "@ + d.likely_cause + "\n"@ + (if d.evidence.len() > 0 {
            "EVIDENCE:\n"@ + dash_lines(evidence_lines(d.evidence))
        } else {
            seq![]
        }) + "REPRODUCTION:\n"@ + d.reproduction + "\n"@,
{
    lemma_evidence_bullets_are_dash_lines(d.evidence);
}

/// Each evidence item renders as its documented line.
pub proof fn lemma_evidence_line_formats(h: Seq<char>, m: Seq<char>, f: Seq<char>, a: u64, b: u64, i: i64, n: u16, x: u32, y: u32)
    ensures
        evidence_line(EvidenceV::HttpStatus(n)) == "HTTP status: "@ + decimal(n as nat),
        evidence_line(EvidenceV::HeaderPresent { name: h, value: Some(m) })
            == "Request header present: "@ + h + " = "@ + m,
        evidence_line(EvidenceV::HeaderPresent { name: h, value: None })
            == "Request header present: "@ + h,
        evidence_line(EvidenceV::HeaderMissing { name: h }) == "Request header missing: "@ + h,
        evidence_line(EvidenceV::BodyMutatedBeforeVerification)
            == "Request body was modified by middleware before verification."@,
        evidence_line(EvidenceV::SignatureMismatch) == "HMAC signature verification failed."@,
        evidence_line(EvidenceV::ClockDriftSecs { observed: i, tolerance_secs: a }) == "Clock drift "@
            + signed_decimal(i as int) + "s exceeds tolerance "@ + decimal(a as nat) + "s."@,
        evidence_line(EvidenceV::RetryAfterSecs(a)) == "Retry-After header: "@ + decimal(a as nat)
            + "s"@,
        evidence_line(EvidenceV::RateLimitObserved { observed_rps: x, limit_rps: y })
            == "Observed rate "@ + decimal(x as nat) + " rps exceeds account limit "@ + decimal(
            y as nat,
        ) + " rps."@,
        evidence_line(EvidenceV::DnsResolutionFailed { host: h, message: m })
            == "DNS resolution failed for "@ + h + ": "@ + m,
        evidence_line(EvidenceV::TlsHandshakeFailed { peer: h, reason: m }) == "TLS handshake to "@
            + h + " failed: "@ + m,
        evidence_line(EvidenceV::ConnectionTimeout { elapsed_ms: a, timeout_ms: b })
            == "Client timeout: aborted after "@ + decimal(a as nat) + "ms (timeout "@ + decimal(
            b as nat,
        ) + "ms)."@,
        evidence_line(EvidenceV::JsonValidationError { field: Some(f), message: m })
            == "JSON validation error on field `"@ + f + "`: "@ + m,
        evidence_line(EvidenceV::JsonValidationError { field: None, message: m })
            == "JSON validation error: "@ + m,
{
}

} // verus!
