//! Evidence model and collectors.
//!
//! Evidence is the only input the rules engine consumes. Cases and log
//! lines are normalized into [`Evidence`] items here.
//!
//! - [`collect_evidence`] takes a case plus the contents of its log file and
//!   produces the union, with cross-source dedup (see [`is_redundant_with`]).
//! - [`parse_log`] takes only a log text: it scans each line for the markers
//!   documented in `docs/architecture.md` and pulls `key=value` pairs out of
//!   the surrounding text with [`extract_kv_str`].

use vstd::prelude::*;
use vstd::string::StringExecFns;
use crate::cases::{Case, Response};
use crate::text::{
    chars_of, contains, contains_pat, opt_view, is_whitespace, is_ws, matches_at, occurs_at, owned,
    parse_i64, parse_signed, parse_u32, parse_u64, parse_unsigned, slice_chars, str_equal,
    string_of,
    string_of_range, trim, trim_bounds, trim_end, trim_start, lemma_parse_signed_range,
    lemma_parse_unsigned_range,
};

verus! {

/// A single normalized signal extracted from a request/response, env
/// context, or a log line.
#[derive(Debug, Clone, PartialEq, Eq)]
pub enum Evidence {
    /// Final HTTP status code observed on the response.
    HttpStatus(u16),
    /// A request header that was present, with its masked value.
    HeaderPresent { name: String, value: Option<String> },
    /// A request header that was looked for but not found.
    HeaderMissing { name: String },
    /// The request body was modified by middleware before verification.
    BodyMutatedBeforeVerification,
    /// HMAC signature verification failed.
    SignatureMismatch,
    /// Clock skew (absolute seconds) exceeding the tolerance.
    ClockDriftSecs { observed: i64, tolerance_secs: u64 },
    /// Server-supplied `Retry-After` value in seconds.
    RetryAfterSecs(u64),
    /// Observed request rate vs the account's per-second limit.
    RateLimitObserved { observed_rps: u32, limit_rps: u32 },
    /// DNS resolution failed for the given host.
    DnsResolutionFailed { host: String, message: String },
    /// TLS handshake to the given peer failed.
    TlsHandshakeFailed { peer: String, reason: String },
    /// The client aborted because the upstream did not respond in time.
    ConnectionTimeout { elapsed_ms: u64, timeout_ms: u64 },
    /// Server-side schema validation rejected the request.
    JsonValidationError { field: Option<String>, message: String },
}

/// The mathematical value of an [`Evidence`] item: strings as character
/// sequences.
pub enum EvidenceV {
    HttpStatus(u16),
    HeaderPresent { name: Seq<char>, value: Option<Seq<char>> },
    HeaderMissing { name: Seq<char> },
    BodyMutatedBeforeVerification,
    SignatureMismatch,
    ClockDriftSecs { observed: i64, tolerance_secs: u64 },
    RetryAfterSecs(u64),
    RateLimitObserved { observed_rps: u32, limit_rps: u32 },
    DnsResolutionFailed { host: Seq<char>, message: Seq<char> },
    TlsHandshakeFailed { peer: Seq<char>, reason: Seq<char> },
    ConnectionTimeout { elapsed_ms: u64, timeout_ms: u64 },
    JsonValidationError { field: Option<Seq<char>>, message: Seq<char> },
}

impl View for Evidence {
    type V = EvidenceV;

    open spec fn view(&self) -> EvidenceV {
        match self {
            Evidence::HttpStatus(c) => EvidenceV::HttpStatus(*c),
            Evidence::HeaderPresent { name, value } => EvidenceV::HeaderPresent {
                name: name@,
                value: opt_view(*value),
            },
            Evidence::HeaderMissing { name } => EvidenceV::HeaderMissing { name: name@ },
            Evidence::BodyMutatedBeforeVerification => EvidenceV::BodyMutatedBeforeVerification,
            Evidence::SignatureMismatch => EvidenceV::SignatureMismatch,
            Evidence::ClockDriftSecs { observed, tolerance_secs } => EvidenceV::ClockDriftSecs {
                observed: *observed,
                tolerance_secs: *tolerance_secs,
            },
            Evidence::RetryAfterSecs(s) => EvidenceV::RetryAfterSecs(*s),
            Evidence::RateLimitObserved { observed_rps, limit_rps } =>
                EvidenceV::RateLimitObserved { observed_rps: *observed_rps, limit_rps: *limit_rps },
            Evidence::DnsResolutionFailed { host, message } => EvidenceV::DnsResolutionFailed {
                host: host@,
                message: message@,
            },
            Evidence::TlsHandshakeFailed { peer, reason } => EvidenceV::TlsHandshakeFailed {
                peer: peer@,
                reason: reason@,
            },
            Evidence::ConnectionTimeout { elapsed_ms, timeout_ms } =>
                EvidenceV::ConnectionTimeout { elapsed_ms: *elapsed_ms, timeout_ms: *timeout_ms },
            Evidence::JsonValidationError { field, message } => EvidenceV::JsonValidationError {
                field: opt_view(*field),
                message: message@,
            },
        }
    }
}

impl DeepView for Evidence {
    type V = EvidenceV;

    open spec fn deep_view(&self) -> EvidenceV {
        self@
    }
}

/// The views of a sequence of evidence items.
pub open spec fn evs(v: Seq<Evidence>) -> Seq<EvidenceV> {
    v.map_values(|e: Evidence| e@)
}

fn opt_string_equal(a: &Option<String>, b: &Option<String>) -> (r: bool)
    ensures
        r == (opt_view(*a) == opt_view(*b)),
{
    match (a, b) {
        (Some(x), Some(y)) => str_equal(x.as_str(), y.as_str()),
        (None, None) => true,
        _ => false,
    }
}

fn opt_string_copy(a: &Option<String>) -> (r: Option<String>)
    ensures
        opt_view(r) == opt_view(*a),
{
    match a {
        Some(x) => Some(x.clone()),
        None => None,
    }
}

impl Evidence {
    /// Whether two evidence items describe the same fact, field for field.
    pub fn same_as(&self, other: &Evidence) -> (r: bool)
        ensures
            r == (self@ == other@),
    {
        match (self, other) {
            (Evidence::HttpStatus(a), Evidence::HttpStatus(b)) => *a == *b,
            (
                Evidence::HeaderPresent { name: n1, value: v1 },
                Evidence::HeaderPresent { name: n2, value: v2 },
            ) => str_equal(n1.as_str(), n2.as_str()) && opt_string_equal(v1, v2),
            (Evidence::HeaderMissing { name: n1 }, Evidence::HeaderMissing { name: n2 }) =>
                str_equal(n1.as_str(), n2.as_str()),
            (
                Evidence::BodyMutatedBeforeVerification,
                Evidence::BodyMutatedBeforeVerification,
            ) => true,
            (Evidence::SignatureMismatch, Evidence::SignatureMismatch) => true,
            (
                Evidence::ClockDriftSecs { observed: o1, tolerance_secs: t1 },
                Evidence::ClockDriftSecs { observed: o2, tolerance_secs: t2 },
            ) => *o1 == *o2 && *t1 == *t2,
            (Evidence::RetryAfterSecs(a), Evidence::RetryAfterSecs(b)) => *a == *b,
            (
                Evidence::RateLimitObserved { observed_rps: o1, limit_rps: l1 },
                Evidence::RateLimitObserved { observed_rps: o2, limit_rps: l2 },
            ) => *o1 == *o2 && *l1 == *l2,
            (
                Evidence::DnsResolutionFailed { host: h1, message: m1 },
                Evidence::DnsResolutionFailed { host: h2, message: m2 },
            ) => str_equal(h1.as_str(), h2.as_str()) && str_equal(m1.as_str(), m2.as_str()),
            (
                Evidence::TlsHandshakeFailed { peer: p1, reason: r1 },
                Evidence::TlsHandshakeFailed { peer: p2, reason: r2 },
            ) => str_equal(p1.as_str(), p2.as_str()) && str_equal(r1.as_str(), r2.as_str()),
            (
                Evidence::ConnectionTimeout { elapsed_ms: e1, timeout_ms: t1 },
                Evidence::ConnectionTimeout { elapsed_ms: e2, timeout_ms: t2 },
            ) => *e1 == *e2 && *t1 == *t2,
            (
                Evidence::JsonValidationError { field: f1, message: m1 },
                Evidence::JsonValidationError { field: f2, message: m2 },
            ) => opt_string_equal(f1, f2) && str_equal(m1.as_str(), m2.as_str()),
            _ => false,
        }
    }

    /// A copy of this item.
    pub fn duplicate(&self) -> (r: Evidence)
        ensures
            r@ == self@,
    {
        match self {
            Evidence::HttpStatus(c) => Evidence::HttpStatus(*c),
            Evidence::HeaderPresent { name, value } => Evidence::HeaderPresent {
                name: name.clone(),
                value: opt_string_copy(value),
            },
            Evidence::HeaderMissing { name } => Evidence::HeaderMissing { name: name.clone() },
            Evidence::BodyMutatedBeforeVerification => Evidence::BodyMutatedBeforeVerification,
            Evidence::SignatureMismatch => Evidence::SignatureMismatch,
            Evidence::ClockDriftSecs { observed, tolerance_secs } => Evidence::ClockDriftSecs {
                observed: *observed,
                tolerance_secs: *tolerance_secs,
            },
            Evidence::RetryAfterSecs(s) => Evidence::RetryAfterSecs(*s),
            Evidence::RateLimitObserved { observed_rps, limit_rps } =>
                Evidence::RateLimitObserved { observed_rps: *observed_rps, limit_rps: *limit_rps },
            Evidence::DnsResolutionFailed { host, message } => Evidence::DnsResolutionFailed {
                host: host.clone(),
                message: message.clone(),
            },
            Evidence::TlsHandshakeFailed { peer, reason } => Evidence::TlsHandshakeFailed {
                peer: peer.clone(),
                reason: reason.clone(),
            },
            Evidence::ConnectionTimeout { elapsed_ms, timeout_ms } =>
                Evidence::ConnectionTimeout { elapsed_ms: *elapsed_ms, timeout_ms: *timeout_ms },
            Evidence::JsonValidationError { field, message } => Evidence::JsonValidationError {
                field: opt_string_copy(field),
                message: message.clone(),
            },
        }
    }
}

/// Whether `ev` occurs in `v`.
pub fn contains_evidence(v: &[Evidence], ev: &Evidence) -> (r: bool)
    ensures
        r == evs(v@).contains(ev@),
{
    let mut i: usize = 0;
    while i < v.len()
        invariant
            i <= v.len(),
            forall|k: int| 0 <= k < i ==> v@[k]@ != ev@,
        decreases v.len() - i,
    {
        if v[i].same_as(ev) {
            assert(evs(v@)[i as int] == ev@);
            return true;
        }
        i = i + 1;
    }
    assert(!evs(v@).contains(ev@)) by {
        if evs(v@).contains(ev@) {
            let k = choose|k: int| 0 <= k < evs(v@).len() && evs(v@)[k] == ev@;
            assert(v@[k]@ == ev@);
        }
    }
    false
}

// ---------------------------------------------------------------------
// Within-log dedup
// ---------------------------------------------------------------------

/// `acc` with `e` appended unless an equal item is already present.
pub open spec fn with_unique(acc: Seq<EvidenceV>, e: EvidenceV) -> Seq<EvidenceV> {
    if acc.contains(e) {
        acc
    } else {
        acc.push(e)
    }
}

/// Push `ev` only if an exactly-equal item is not already present.
pub fn push_unique(out: &mut Vec<Evidence>, ev: Evidence)
    ensures
        evs(final(out)@) == with_unique(evs(old(out)@), ev@),
{
    if !contains_evidence(out.as_slice(), &ev) {
        let ghost e = ev@;
        out.push(ev);
        assert(evs(out@) =~= evs(old(out)@).push(e));
    }
}

// ---------------------------------------------------------------------
// `key=value` extraction
// ---------------------------------------------------------------------

/// The index just past the first occurrence of `needle` at or after `i`
/// that starts the line or follows a whitespace character.
pub open spec fn key_start(line: Seq<char>, needle: Seq<char>, i: int) -> Option<int>
    decreases line.len() + 1 - i,
{
    if i < 0 || i + needle.len() > line.len() {
        None
    } else if occurs_at(line, needle, i) && (i == 0 || is_ws(line[i - 1])) {
        Some(i + needle.len())
    } else {
        key_start(line, needle, i + 1)
    }
}

/// The first index `>= i` holding `c`.
pub open spec fn index_of_char(s: Seq<char>, c: char, i: int) -> Option<int>
    decreases s.len() - i,
{
    if i < 0 || i >= s.len() {
        None
    } else if s[i] == c {
        Some(i)
    } else {
        index_of_char(s, c, i + 1)
    }
}

/// The first index `>= i` holding whitespace, or the length of `s`.
pub open spec fn first_ws(s: Seq<char>, i: int) -> int
    decreases s.len() - i,
{
    if i < 0 || i >= s.len() {
        s.len() as int
    } else if is_ws(s[i]) {
        i
    } else {
        first_ws(s, i + 1)
    }
}

/// The value of `key=value` in `line`: a `"quoted string"` (without the
/// quotes; `None` when the closing quote is missing) or an unquoted token
/// running up to the next whitespace. The key must start the line or follow
/// whitespace.
pub open spec fn kv_value(line: Seq<char>, key: Seq<char>) -> Option<Seq<char>> {
    match key_start(line, key.push('='), 0) {
        None => None,
        Some(st) => if st < line.len() && line[st] == '"' {
            match index_of_char(line, '"', st + 1) {
                None => None,
                Some(e) => Some(line.subrange(st + 1, e)),
            }
        } else {
            Some(line.subrange(st, first_ws(line, st)))
        },
    }
}

/// `kv_value` parsed as a `u64`.
pub open spec fn kv_u64(line: Seq<char>, key: Seq<char>) -> Option<int> {
    match kv_value(line, key) {
        Some(v) => parse_unsigned(v, u64::MAX as int),
        None => None,
    }
}

/// `kv_value` parsed as a `u32`.
pub open spec fn kv_u32(line: Seq<char>, key: Seq<char>) -> Option<int> {
    match kv_value(line, key) {
        Some(v) => parse_unsigned(v, u32::MAX as int),
        None => None,
    }
}

/// `kv_value` parsed as an `i64`.
pub open spec fn kv_i64(line: Seq<char>, key: Seq<char>) -> Option<int> {
    match kv_value(line, key) {
        Some(v) => parse_signed(v, i64::MIN as int, i64::MAX as int),
        None => None,
    }
}

proof fn lemma_key_start_step(line: Seq<char>, needle: Seq<char>, i: int)
    requires
        0 <= i,
        i + needle.len() <= line.len(),
        !(occurs_at(line, needle, i) && (i == 0 || is_ws(line[i - 1]))),
    ensures
        key_start(line, needle, i) == key_start(line, needle, i + 1),
{
}

fn find_key_start(line: &Vec<char>, needle: &Vec<char>) -> (r: Option<usize>)
    requires
        needle.len() > 0,
    ensures
        r matches Some(n) ==> key_start(line@, needle@, 0) == Some(n as int),
        r is None ==> key_start(line@, needle@, 0) is None,
{
    let mut i: usize = 0;
    while i <= line.len() && needle.len() <= line.len() - i
        invariant
            needle.len() > 0,
            key_start(line@, needle@, 0) == key_start(line@, needle@, i as int),
        decreases line.len() + 1 - i,
    {
        if matches_at(line, needle, i) && (i == 0 || is_whitespace(line[i - 1])) {
            return Some(i + needle.len());
        }
        proof {
            lemma_key_start_step(line@, needle@, i as int);
        }
        i = i + 1;
    }
    None
}

fn find_char(s: &Vec<char>, c: char, from: usize) -> (r: Option<usize>)
    ensures
        r matches Some(n) ==> index_of_char(s@, c, from as int) == Some(n as int),
        r is None ==> index_of_char(s@, c, from as int) is None,
{
    let mut i = from;
    while i < s.len()
        invariant
            from <= i,
            index_of_char(s@, c, from as int) == index_of_char(s@, c, i as int),
        decreases s.len() - i,
    {
        if s[i] == c {
            return Some(i);
        }
        i = i + 1;
    }
    None
}

fn find_ws(s: &Vec<char>, from: usize) -> (r: usize)
    requires
        from <= s.len(),
    ensures
        r as int == first_ws(s@, from as int),
        from <= r <= s.len(),
{
    let mut i = from;
    while i < s.len()
        invariant
            from <= i <= s.len(),
            first_ws(s@, from as int) == first_ws(s@, i as int),
        decreases s.len() - i,
    {
        if is_whitespace(s[i]) {
            return i;
        }
        i = i + 1;
    }
    i
}

proof fn lemma_index_of_char_bounds(s: Seq<char>, c: char, i: int)
    ensures
        index_of_char(s, c, i) matches Some(e) ==> i <= e < s.len() && s[e] == c,
    decreases s.len() - i,
{
    if 0 <= i < s.len() && s[i] != c {
        lemma_index_of_char_bounds(s, c, i + 1);
    }
}

proof fn lemma_key_start_bounds(line: Seq<char>, needle: Seq<char>, i: int)
    ensures
        key_start(line, needle, i) matches Some(st) ==> st <= line.len(),
    decreases line.len() + 1 - i,
{
    if 0 <= i && i + needle.len() <= line.len() && !(occurs_at(line, needle, i) && (i == 0
        || is_ws(line[i - 1]))) {
        lemma_key_start_bounds(line, needle, i + 1);
    }
}

/// The characters of the value of `key=value` in `line`.
fn kv_chars(line: &Vec<char>, key: &str) -> (r: Option<Vec<char>>)
    ensures
        r matches Some(v) ==> kv_value(line@, key@) == Some(v@),
        r is None ==> kv_value(line@, key@) is None,
{
    let mut needle = chars_of(key);
    needle.push('=');
    proof {
        lemma_key_start_bounds(line@, needle@, 0);
    }
    match find_key_start(line, &needle) {
        None => None,
        Some(st) => {
            if st < line.len() && line[st] == '"' {
                proof {
                    lemma_index_of_char_bounds(line@, '"', st + 1);
                }
                match find_char(line, '"', st + 1) {
                    None => None,
                    Some(e) => Some(slice_chars(line, st + 1, e)),
                }
            } else {
                let e = find_ws(line, st);
                Some(slice_chars(line, st, e))
            }
        },
    }
}

/// Extract `key=value` where the value is either a `"quoted string"` or an
/// unquoted whitespace-delimited token; the key must start the line or
/// follow whitespace, so `prefixed_key=` does not match `key`.
pub fn extract_kv_str(line: &str, key: &str) -> (r: Option<String>)
    ensures
        opt_view(r) == kv_value(line@, key@),
{
    let l = chars_of(line);
    match kv_chars(&l, key) {
        Some(v) => Some(string_of(&v)),
        None => None,
    }
}

fn kv_u64_of(line: &Vec<char>, key: &str) -> (r: Option<u64>)
    ensures
        r matches Some(n) ==> kv_u64(line@, key@) == Some(n as int),
        r is None ==> kv_u64(line@, key@) is None,
{
    match kv_chars(line, key) {
        Some(v) => parse_u64(&v),
        None => None,
    }
}

fn kv_u32_of(line: &Vec<char>, key: &str) -> (r: Option<u32>)
    ensures
        r matches Some(n) ==> kv_u32(line@, key@) == Some(n as int),
        r is None ==> kv_u32(line@, key@) is None,
{
    match kv_chars(line, key) {
        Some(v) => parse_u32(&v),
        None => None,
    }
}

fn kv_i64_of(line: &Vec<char>, key: &str) -> (r: Option<i64>)
    ensures
        r matches Some(n) ==> kv_i64(line@, key@) == Some(n as int),
        r is None ==> kv_i64(line@, key@) is None,
{
    match kv_chars(line, key) {
        Some(v) => parse_i64(&v),
        None => None,
    }
}

/// `extract_kv_str` parsed as a `u64` (`None` when absent or malformed).
pub fn extract_kv_u64(line: &str, key: &str) -> (r: Option<u64>)
    ensures
        r matches Some(n) ==> kv_u64(line@, key@) == Some(n as int),
        r is None ==> kv_u64(line@, key@) is None,
{
    let l = chars_of(line);
    kv_u64_of(&l, key)
}

/// `extract_kv_str` parsed as a `u32` (`None` when absent or malformed).
pub fn extract_kv_u32(line: &str, key: &str) -> (r: Option<u32>)
    ensures
        r matches Some(n) ==> kv_u32(line@, key@) == Some(n as int),
        r is None ==> kv_u32(line@, key@) is None,
{
    let l = chars_of(line);
    kv_u32_of(&l, key)
}

/// `extract_kv_str` parsed as an `i64` (`None` when absent or malformed).
pub fn extract_kv_i64(line: &str, key: &str) -> (r: Option<i64>)
    ensures
        r matches Some(n) ==> kv_i64(line@, key@) == Some(n as int),
        r is None ==> kv_i64(line@, key@) is None,
{
    let l = chars_of(line);
    kv_i64_of(&l, key)
}

// ---------------------------------------------------------------------
// Log scanning
// ---------------------------------------------------------------------

/// Absolute value.
pub open spec fn abs(i: int) -> int {
    if i < 0 {
        -i
    } else {
        i
    }
}

/// `value` when present, else `default`.
pub open spec fn or_default(value: Option<Seq<char>>, default: Seq<char>) -> Seq<char> {
    match value {
        Some(v) => v,
        None => default,
    }
}

/// Signature markers.
pub open spec fn step_signature(acc: Seq<EvidenceV>, line: Seq<char>) -> Seq<EvidenceV> {
    if contains_pat(line, "reason=signature_mismatch"@) || contains_pat(
        line,
        "signature verification failed"@,
    ) {
        with_unique(acc, EvidenceV::SignatureMismatch)
    } else {
        acc
    }
}

/// Body-mutation markers.
pub open spec fn step_body(acc: Seq<EvidenceV>, line: Seq<char>) -> Seq<EvidenceV> {
    if contains_pat(line, "body_modified=true"@) || contains_pat(line, "body_mutated=true"@) {
        with_unique(acc, EvidenceV::BodyMutatedBeforeVerification)
    } else {
        acc
    }
}

/// `drift_secs=N tolerance_secs=M` with `|N| > M` (the drift is stored as
/// `|N|`); a drift within the tolerance is no evidence.
pub open spec fn step_drift(acc: Seq<EvidenceV>, line: Seq<char>) -> Seq<EvidenceV> {
    match (kv_i64(line, "drift_secs"@), kv_u64(line, "tolerance_secs"@)) {
        (Some(o), Some(t)) => if abs(o) > t {
            with_unique(
                acc,
                EvidenceV::ClockDriftSecs { observed: abs(o) as i64, tolerance_secs: t as u64 },
            )
        } else {
            acc
        },
        _ => acc,
    }
}

/// `schema validation failed`, with an optional `field=`.
pub open spec fn step_schema(acc: Seq<EvidenceV>, line: Seq<char>) -> Seq<EvidenceV> {
    if contains_pat(line, "schema validation failed"@) {
        with_unique(
            acc,
            EvidenceV::JsonValidationError {
                field: kv_value(line, "field"@),
                message: "schema validation failed"@,
            },
        )
    } else {
        acc
    }
}

/// `burst above limit`, with `retry_after_secs=`, `observed_rps=`, `limit_rps=`.
pub open spec fn step_burst(acc: Seq<EvidenceV>, line: Seq<char>) -> Seq<EvidenceV> {
    if contains_pat(line, "burst above limit"@) {
        let b = match kv_u64(line, "retry_after_secs"@) {
            Some(n) => with_unique(acc, EvidenceV::RetryAfterSecs(n as u64)),
            None => acc,
        };
        match (kv_u32(line, "observed_rps"@), kv_u32(line, "limit_rps"@)) {
            (Some(o), Some(l)) => with_unique(
                b,
                EvidenceV::RateLimitObserved { observed_rps: o as u32, limit_rps: l as u32 },
            ),
            _ => b,
        }
    } else {
        acc
    }
}

/// `name resolution failed`; only emitted when the line carries `host=`.
pub open spec fn step_dns(acc: Seq<EvidenceV>, line: Seq<char>) -> Seq<EvidenceV> {
    if contains_pat(line, "name resolution failed"@) {
        match kv_value(line, "host"@) {
            Some(h) => with_unique(
                acc,
                EvidenceV::DnsResolutionFailed {
                    host: h,
                    message: or_default(kv_value(line, "error"@), "no such host"@),
                },
            ),
            None => acc,
        }
    } else {
        acc
    }
}

/// `tls handshake failed`; only emitted when the line carries `peer=`.
pub open spec fn step_tls(acc: Seq<EvidenceV>, line: Seq<char>) -> Seq<EvidenceV> {
    if contains_pat(line, "tls handshake failed"@) {
        match kv_value(line, "peer"@) {
            Some(p) => with_unique(
                acc,
                EvidenceV::TlsHandshakeFailed {
                    peer: p,
                    reason: or_default(kv_value(line, "error"@), "tls handshake failed"@),
                },
            ),
            None => acc,
        }
    } else {
        acc
    }
}

/// `upstream timeout`, with `elapsed_ms=` and `timeout_ms=`.
pub open spec fn step_timeout(acc: Seq<EvidenceV>, line: Seq<char>) -> Seq<EvidenceV> {
    if contains_pat(line, "upstream timeout"@) {
        match (kv_u64(line, "elapsed_ms"@), kv_u64(line, "timeout_ms"@)) {
            (Some(e), Some(t)) => with_unique(
                acc,
                EvidenceV::ConnectionTimeout { elapsed_ms: e as u64, timeout_ms: t as u64 },
            ),
            _ => acc,
        }
    } else {
        acc
    }
}

/// What one trimmed, non-empty log line adds: the markers are checked in a
/// fixed order, each adding an item unless an equal one is already present.
pub open spec fn scan_markers(acc: Seq<EvidenceV>, line: Seq<char>) -> Seq<EvidenceV> {
    step_timeout(
        step_tls(
            step_dns(
                step_burst(
                    step_schema(step_drift(step_body(step_signature(acc, line), line), line), line),
                    line,
                ),
                line,
            ),
            line,
        ),
        line,
    )
}

/// What one raw log line adds: it is trimmed, and blank lines add nothing.
pub open spec fn scan_line(acc: Seq<EvidenceV>, raw: Seq<char>) -> Seq<EvidenceV> {
    let line = trim(raw);
    if line.len() == 0 {
        acc
    } else {
        scan_markers(acc, line)
    }
}

/// The lines of `t` completed so far (each ended by `\n`) and the line in
/// progress.
pub open spec fn split_lines(t: Seq<char>) -> (Seq<Seq<char>>, Seq<char>)
    decreases t.len(),
{
    if t.len() == 0 {
        (seq![], seq![])
    } else {
        let (done, cur) = split_lines(t.drop_last());
        if t.last() == '\n' {
            (done.push(cur), seq![])
        } else {
            (done, cur.push(t.last()))
        }
    }
}

/// The pieces of `t` between `\n` characters. (A trailing `\r` is removed by
/// trimming, and a final empty piece adds nothing, so this matches
/// `str::lines` for the scan.)
pub open spec fn log_lines(t: Seq<char>) -> Seq<Seq<char>> {
    split_lines(t).0.push(split_lines(t).1)
}

/// The evidence extracted from a sequence of raw lines, in order.
pub open spec fn scan_lines(lines: Seq<Seq<char>>) -> Seq<EvidenceV>
    decreases lines.len(),
{
    if lines.len() == 0 {
        seq![]
    } else {
        scan_line(scan_lines(lines.drop_last()), lines.last())
    }
}

/// The evidence `parse_log` extracts from a log text.
pub open spec fn parsed_log(t: Seq<char>) -> Seq<EvidenceV> {
    scan_lines(log_lines(t))
}

/// A line whose `drift_secs` is `i64::MIN` and exceeds its `tolerance_secs`
/// has no absolute value in `i64`; such a line is outside what the scan
/// accepts.
pub open spec fn line_drift_ok(raw: Seq<char>) -> bool {
    let line = trim(raw);
    !(line.len() > 0 && kv_i64(line, "drift_secs"@) == Some(i64::MIN as int) && (kv_u64(
        line,
        "tolerance_secs"@,
    ) matches Some(t) && abs(i64::MIN as int) > t))
}

/// Every line of `t` satisfies [`line_drift_ok`].
pub open spec fn log_drift_ok(t: Seq<char>) -> bool {
    forall|i: int| 0 <= i < log_lines(t).len() ==> #[trigger] line_drift_ok(log_lines(t)[i])
}

fn has(line: &Vec<char>, pat: &str) -> (r: bool)
    ensures
        r == contains_pat(line@, pat@),
{
    contains(line, &chars_of(pat))
}

fn scan_markers_into(out: &mut Vec<Evidence>, line: &Vec<char>)
    requires
        line_drift_ok(line@),
        line@.len() > 0,
        trim(line@) == line@,
    ensures
        evs(final(out)@) == scan_markers(evs(old(out)@), line@),
{
    let ghost l = line@;
    let ghost a0 = evs(out@);
    if has(line, "reason=signature_mismatch") || has(line, "signature verification failed") {
        push_unique(out, Evidence::SignatureMismatch);
    }
    let ghost a1 = evs(out@);
    assert(a1 == step_signature(a0, l));
    if has(line, "body_modified=true") || has(line, "body_mutated=true") {
        push_unique(out, Evidence::BodyMutatedBeforeVerification);
    }
    let ghost a2 = evs(out@);
    assert(a2 == step_body(a1, l));
    match (kv_i64_of(line, "drift_secs"), kv_u64_of(line, "tolerance_secs")) {
        (Some(observed), Some(tol)) => {
            let magnitude: u64 = if observed < 0 {
                (-(observed as i128)) as u64
            } else {
                observed as u64
            };
            if magnitude > tol {
                assert(observed != i64::MIN);
                let a = if observed < 0 {
                    -observed
                } else {
                    observed
                };
                push_unique(out, Evidence::ClockDriftSecs { observed: a, tolerance_secs: tol });
            }
        },
        _ => {},
    }
    let ghost a3 = evs(out@);
    assert(a3 == step_drift(a2, l));
    if has(line, "schema validation failed") {
        let field = match kv_chars(line, "field") {
            Some(v) => Some(string_of(&v)),
            None => None,
        };
        push_unique(
            out,
            Evidence::JsonValidationError { field, message: owned("schema validation failed") },
        );
    }
    let ghost a4 = evs(out@);
    assert(a4 == step_schema(a3, l));
    if has(line, "burst above limit") {
        if let Some(retry) = kv_u64_of(line, "retry_after_secs") {
            push_unique(out, Evidence::RetryAfterSecs(retry));
        }
        match (kv_u32_of(line, "observed_rps"), kv_u32_of(line, "limit_rps")) {
            (Some(observed), Some(limit)) => {
                push_unique(
                    out,
                    Evidence::RateLimitObserved { observed_rps: observed, limit_rps: limit },
                );
            },
            _ => {},
        }
    }
    let ghost a5 = evs(out@);
    assert(a5 == step_burst(a4, l));
    if has(line, "name resolution failed") {
        if let Some(host) = kv_chars(line, "host") {
            let message = match kv_chars(line, "error") {
                Some(m) => string_of(&m),
                None => owned("no such host"),
            };
            push_unique(
                out,
                Evidence::DnsResolutionFailed { host: string_of(&host), message },
            );
        }
    }
    let ghost a6 = evs(out@);
    assert(a6 == step_dns(a5, l));
    if has(line, "tls handshake failed") {
        if let Some(peer) = kv_chars(line, "peer") {
            let reason = match kv_chars(line, "error") {
                Some(m) => string_of(&m),
                None => owned("tls handshake failed"),
            };
            push_unique(out, Evidence::TlsHandshakeFailed { peer: string_of(&peer), reason });
        }
    }
    let ghost a7 = evs(out@);
    assert(a7 == step_tls(a6, l));
    if has(line, "upstream timeout") {
        match (kv_u64_of(line, "elapsed_ms"), kv_u64_of(line, "timeout_ms")) {
            (Some(elapsed), Some(timeout)) => {
                push_unique(
                    out,
                    Evidence::ConnectionTimeout { elapsed_ms: elapsed, timeout_ms: timeout },
                );
            },
            _ => {},
        }
    }
    assert(evs(out@) == step_timeout(a7, l));
}

/// Scan the raw line `t[from..to]`.
fn scan_line_into(out: &mut Vec<Evidence>, t: &Vec<char>, from: usize, to: usize)
    requires
        from <= to <= t.len(),
        line_drift_ok(t@.subrange(from as int, to as int)),
    ensures
        evs(final(out)@) == scan_line(evs(old(out)@), t@.subrange(from as int, to as int)),
{
    let (a, b) = trim_bounds(t, from, to);
    if a == b {
        return;
    }
    let line = slice_chars(t, a, b);
    proof {
        lemma_trim_idempotent(t@.subrange(from as int, to as int));
    }
    scan_markers_into(out, &line);
}

proof fn lemma_trim_start_fixed(s: Seq<char>)
    ensures
        trim_start(trim_start(s)) == trim_start(s),
        trim_start(s).len() > 0 ==> !is_ws(trim_start(s)[0]),
    decreases s.len(),
{
    if s.len() > 0 && is_ws(s[0]) {
        lemma_trim_start_fixed(s.drop_first());
    }
}

proof fn lemma_trim_end_keeps_start(s: Seq<char>)
    requires
        s.len() > 0 ==> !is_ws(s[0]),
    ensures
        trim_end(s).len() > 0 ==> !is_ws(trim_end(s)[0]),
        trim_end(s).len() > 0 ==> !is_ws(trim_end(s).last()),
        trim_end(s).len() <= s.len(),
        forall|i: int| 0 <= i < trim_end(s).len() ==> trim_end(s)[i] == s[i],
    decreases s.len(),
{
    if s.len() > 0 && is_ws(s.last()) {
        lemma_trim_end_keeps_start(s.drop_last());
        assert forall|i: int| 0 <= i < trim_end(s).len() implies trim_end(s)[i] == s[i] by {
            assert(s.drop_last()[i] == s[i]);
        }
    }
}

/// Trimming a trimmed sequence changes nothing.
pub proof fn lemma_trim_idempotent(s: Seq<char>)
    ensures
        trim(trim(s)) == trim(s),
{
    let t = trim(s);
    lemma_trim_start_fixed(s);
    lemma_trim_end_keeps_start(trim_start(s));
    if t.len() > 0 {
        assert(trim_start(t) == t);
        assert(trim_end(t) == t);
    } else {
        assert(trim_start(t) == t);
        assert(trim_end(t) == t);
    }
}

/// Parse a log buffer into evidence items by scanning each line for the
/// known markers, in line order, without duplicates.
pub fn parse_log(log_text: &str) -> (out: Vec<Evidence>)
    requires
        log_drift_ok(log_text@),
    ensures
        evs(out@) == parsed_log(log_text@),
{
    let t = chars_of(log_text);
    let mut out: Vec<Evidence> = Vec::new();
    let mut start: usize = 0;
    let mut i: usize = 0;
    let ghost mut done: Seq<Seq<char>> = seq![];
    assert(t@.take(0) =~= Seq::<char>::empty());
    assert(evs(out@) =~= Seq::<EvidenceV>::empty());
    while i < t.len()
        invariant
            t@ == log_text@,
            start <= i <= t.len(),
            split_lines(t@.take(i as int)) == (done, t@.subrange(start as int, i as int)),
            evs(out@) == scan_lines(done),
            log_drift_ok(log_text@),
        decreases t.len() - i,
    {
        assert(t@.take(i + 1).drop_last() =~= t@.take(i as int));
        if t[i] == '\n' {
            proof {
                lemma_split_lines_prefix(t@, i as int);
                assert(log_lines(t@)[done.len() as int] == t@.subrange(start as int, i as int));
                assert(line_drift_ok(log_lines(t@)[done.len() as int]));
            }
            scan_line_into(&mut out, &t, start, i);
            proof {
                let x = t@.subrange(start as int, i as int);
                assert(done.push(x).drop_last() =~= done);
                done = done.push(x);
            }
            start = i + 1;
            i = i + 1;
            assert(t@.subrange(start as int, i as int) =~= Seq::<char>::empty());
        } else {
            i = i + 1;
            assert(t@.subrange(start as int, i as int) =~= t@.subrange(start as int, i - 1).push(t@[i - 1]));
        }
    }
    assert(t@.take(i as int) =~= t@);
    assert(log_lines(t@)[done.len() as int] == t@.subrange(start as int, i as int));
    assert(line_drift_ok(log_lines(t@)[done.len() as int]));
    scan_line_into(&mut out, &t, start, t.len());
    assert(log_lines(t@) == done.push(t@.subrange(start as int, i as int)));
    assert(log_lines(t@).drop_last() =~= done);
    out
}

fn line_drift_in_range(t: &Vec<char>, from: usize, to: usize) -> (r: bool)
    requires
        from <= to <= t.len(),
    ensures
        r == line_drift_ok(t@.subrange(from as int, to as int)),
{
    let (a, b) = trim_bounds(t, from, to);
    if a == b {
        return true;
    }
    let line = slice_chars(t, a, b);
    match (kv_i64_of(&line, "drift_secs"), kv_u64_of(&line, "tolerance_secs")) {
        (Some(d), Some(t)) => !(d == i64::MIN && t < 0x8000_0000_0000_0000u64),
        _ => true,
    }
}

/// Whether [`parse_log`] accepts `log_text`: no line pairs a `drift_secs`
/// of `i64::MIN`, whose magnitude has no `i64`, with a smaller
/// `tolerance_secs`.
pub fn log_drift_in_range(log_text: &str) -> (r: bool)
    ensures
        r == log_drift_ok(log_text@),
{
    let t = chars_of(log_text);
    let mut start: usize = 0;
    let mut i: usize = 0;
    let ghost mut done: Seq<Seq<char>> = seq![];
    assert(t@.take(0) =~= Seq::<char>::empty());
    while i < t.len()
        invariant
            t@ == log_text@,
            start <= i <= t.len(),
            split_lines(t@.take(i as int)) == (done, t@.subrange(start as int, i as int)),
            forall|k: int| 0 <= k < done.len() ==> #[trigger] line_drift_ok(done[k]),
        decreases t.len() - i,
    {
        assert(t@.take(i + 1).drop_last() =~= t@.take(i as int));
        if t[i] == '\n' {
            proof {
                lemma_split_lines_prefix(t@, i as int);
                assert(log_lines(t@)[done.len() as int] == t@.subrange(start as int, i as int));
            }
            if !line_drift_in_range(&t, start, i) {
                assert(!line_drift_ok(log_lines(t@)[done.len() as int]));
                return false;
            }
            proof {
                let x = t@.subrange(start as int, i as int);
                assert forall|k: int| 0 <= k < done.push(x).len() implies #[trigger] line_drift_ok(
                    done.push(x)[k],
                ) by {
                    if k < done.len() {
                        assert(done.push(x)[k] == done[k]);
                    }
                }
                done = done.push(x);
            }
            start = i + 1;
            i = i + 1;
            assert(t@.subrange(start as int, i as int) =~= Seq::<char>::empty());
        } else {
            i = i + 1;
            assert(t@.subrange(start as int, i as int) =~= t@.subrange(start as int, i - 1).push(t@[i - 1]));
        }
    }
    assert(t@.take(i as int) =~= t@);
    let last_ok = line_drift_in_range(&t, start, t.len());
    let ghost lines = log_lines(t@);
    assert(lines == done.push(t@.subrange(start as int, i as int)));
    if !last_ok {
        assert(!line_drift_ok(lines[done.len() as int]));
        return false;
    }
    assert forall|k: int| 0 <= k < lines.len() implies #[trigger] line_drift_ok(lines[k]) by {
        if k < done.len() {
            assert(lines[k] == done[k]);
        }
    }
    true
}

/// The lines completed in a prefix of `t` are the first lines of `t`, and a
/// line ended by the `\n` at index `i` is the next line of `t`.
proof fn lemma_split_lines_prefix(t: Seq<char>, i: int)
    requires
        0 <= i <= t.len(),
    ensures
        ({
            let (d1, c1) = split_lines(t.take(i));
            let d = split_lines(t).0;
            &&& d1.len() <= d.len()
            &&& forall|k: int| 0 <= k < d1.len() ==> d[k] == d1[k]
            &&& (i < t.len() && t[i] == '\n') ==> (d1.len() < d.len() && d[d1.len() as int] == c1)
        }),
    decreases t.len(),
{
    if i < t.len() {
        let u = t.drop_last();
        assert(u.take(i) =~= t.take(i));
        if i == t.len() - 1 {
            assert(t.take(i) =~= u);
        } else {
            lemma_split_lines_prefix(u, i);
            assert(u[i] == t[i]);
        }
    } else {
        assert(t.take(i) =~= t);
    }
}

// ---------------------------------------------------------------------
// Response body validation errors
// ---------------------------------------------------------------------

/// Names the string that `serde_json` finds in `body` at member `outer` of
/// the top-level object, then member `inner` of that: `None` when the body
/// is not JSON, a member is missing, or the value there is not a string.
pub uninterp spec fn json_member_str(body: Seq<char>, outer: Seq<char>, inner: Seq<char>) -> Option<
    Seq<char>,
>;

/// `serde_json::from_str::<serde_json::Value>`, then `Value::get` twice and
/// `Value::as_str`. The contract names the result and says nothing of JSON
/// syntax: the answer for a given body is whatever serde_json's parser
/// gives, and it depends on the three strings alone.
#[verifier::external_body]
fn json_member_str_of(body: &str, outer: &str, inner: &str) -> (r: Option<String>)
    ensures
        opt_view(r) == json_member_str(body@, outer@, inner@),
{
    let value: serde_json::Value = serde_json::from_str(body).ok()?;
    let s = value.get(outer)?.get(inner)?.as_str()?;
    Some(s.to_string())
}

/// The view of an optional evidence item.
pub open spec fn opt_ev(o: Option<Evidence>) -> Option<EvidenceV> {
    match o {
        Some(e) => Some(e@),
        None => None,
    }
}

/// The evidence a structured error body yields, given its `error.code`,
/// `error.field` and `error.message` strings: a validation error exactly
/// when the code is `validation_failed`.
pub open spec fn validation_evidence(
    code: Option<Seq<char>>,
    field: Option<Seq<char>>,
    message: Option<Seq<char>>,
) -> Option<EvidenceV> {
    if code == Some("validation_failed"@) {
        Some(
            EvidenceV::JsonValidationError {
                field: field,
                message: or_default(message, "validation failed"@),
            },
        )
    } else {
        None
    }
}

/// The evidence a response body yields.
pub open spec fn body_validation(body: Seq<char>) -> Option<EvidenceV> {
    validation_evidence(
        json_member_str(body, "error"@, "code"@),
        json_member_str(body, "error"@, "field"@),
        json_member_str(body, "error"@, "message"@),
    )
}

/// Decide, from the `error.code`, `error.field` and `error.message` strings
/// of a response body, whether it reports a validation failure.
pub fn validation_error_from_fields(
    code: Option<String>,
    field: Option<String>,
    message: Option<String>,
) -> (r: Option<Evidence>)
    ensures
        opt_ev(r) == validation_evidence(opt_view(code), opt_view(field), opt_view(message)),
{
    let is_validation = match &code {
        Some(c) => str_equal(c.as_str(), "validation_failed"),
        None => false,
    };
    if is_validation {
        let message = match message {
            Some(m) => m,
            None => owned("validation failed"),
        };
        Some(Evidence::JsonValidationError { field, message })
    } else {
        None
    }
}

/// Parse a server response body for a structured validation error of the
/// shape `{"error": {"code": "validation_failed", "field": ..., "message": ...}}`.
pub fn parse_validation_error_body(body: &str) -> (r: Option<Evidence>)
    ensures
        opt_ev(r) == body_validation(body@),
{
    let code = json_member_str_of(body, "error", "code");
    let field = json_member_str_of(body, "error", "field");
    let message = json_member_str_of(body, "error", "message");
    validation_error_from_fields(code, field, message)
}

// ---------------------------------------------------------------------
// Case evidence
// ---------------------------------------------------------------------

/// The value of the first header named `name` (the header map's lookup).
pub open spec fn header_value(h: Seq<(String, String)>, name: Seq<char>) -> Option<Seq<char>>
    decreases h.len(),
{
    if h.len() == 0 {
        None
    } else if h[0].0@ == name {
        Some(h[0].1@)
    } else {
        header_value(h.drop_first(), name)
    }
}

/// Look up a header by name.
pub fn find_header<'a>(h: &'a Vec<(String, String)>, name: &str) -> (r: Option<&'a String>)
    ensures
        match r {
            Some(v) => header_value(h@, name@) == Some(v@),
            None => header_value(h@, name@) is None,
        },
{
    let mut i: usize = 0;
    assert(h@.skip(0) =~= h@);
    while i < h.len()
        invariant
            i <= h.len(),
            header_value(h@, name@) == header_value(h@.skip(i as int), name@),
        decreases h.len() - i,
    {
        assert(h@.skip(i as int)[0] == h@[i as int]);
        if str_equal(h[i].0.as_str(), name) {
            return Some(&h[i].1);
        }
        assert(h@.skip(i as int).drop_first() =~= h@.skip(i + 1));
        i = i + 1;
    }
    None
}

/// DNS failure observed by the caller (`dns_resolved: false`).
pub open spec fn dns_evidence(c: crate::cases::Context) -> Seq<EvidenceV> {
    if c.dns_resolved == Some(false) {
        seq![
            EvidenceV::DnsResolutionFailed {
                host: or_default(opt_view(c.dns_host), "<unknown host>"@),
                message: or_default(opt_view(c.dns_error), "name resolution failed"@),
            },
        ]
    } else {
        seq![]
    }
}

/// TLS failure observed by the caller (`tls_handshake_failed: true`).
pub open spec fn tls_evidence(c: crate::cases::Context) -> Seq<EvidenceV> {
    if c.tls_handshake_failed == Some(true) {
        seq![
            EvidenceV::TlsHandshakeFailed {
                peer: or_default(opt_view(c.tls_peer), "<unknown peer>"@),
                reason: or_default(opt_view(c.tls_failure_reason), "tls handshake failed"@),
            },
        ]
    } else {
        seq![]
    }
}

/// No response, and the client waited at least its timeout.
pub open spec fn timeout_evidence(case: Case) -> Seq<EvidenceV> {
    match (case.response, case.context.elapsed_ms_before_abort, case.request.timeout_ms) {
        (None, Some(e), Some(t)) => if e >= t {
            seq![EvidenceV::ConnectionTimeout { elapsed_ms: e, timeout_ms: t }]
        } else {
            seq![]
        },
        _ => seq![],
    }
}

/// Clock skew whose magnitude exceeds the signature tolerance.
pub open spec fn drift_evidence(c: crate::cases::Context) -> Seq<EvidenceV> {
    match (c.client_clock_skew_secs, c.signature_tolerance_secs) {
        (Some(s), Some(t)) => if abs(s as int) > t {
            seq![
                EvidenceV::ClockDriftSecs {
                    observed: abs(s as int) as i64,
                    tolerance_secs: t,
                },
            ]
        } else {
            seq![]
        },
        _ => seq![],
    }
}

/// Body re-encoded by middleware before verification.
pub open spec fn body_evidence(c: crate::cases::Context) -> Seq<EvidenceV> {
    if c.body_mutated_before_verification == Some(true) {
        seq![EvidenceV::BodyMutatedBeforeVerification]
    } else {
        seq![]
    }
}

/// Status, a numeric `Retry-After`, and a structured validation error.
pub open spec fn response_evidence(r: Response) -> Seq<EvidenceV> {
    let retry = match header_value(r.headers@, "Retry-After"@) {
        Some(v) => match parse_unsigned(v, u64::MAX as int) {
            Some(n) => seq![EvidenceV::RetryAfterSecs(n as u64)],
            None => seq![],
        },
        None => seq![],
    };
    let validation = match body_validation(r.body_summary@) {
        Some(e) => seq![e],
        None => seq![],
    };
    seq![EvidenceV::HttpStatus(r.status)] + retry + validation
}

/// Whether the `Authorization` request header was sent.
pub open spec fn auth_evidence(case: Case) -> Seq<EvidenceV> {
    if header_value(case.request.headers@, "Authorization"@) is Some {
        seq![
            EvidenceV::HeaderPresent { name: "Authorization"@, value: Some("***"@) },
        ]
    } else {
        seq![EvidenceV::HeaderMissing { name: "Authorization"@ }]
    }
}

/// The evidence a case yields before its log is read, in source order:
/// context (DNS, TLS, timeout, clock drift, body mutation), then the
/// response, then the request.
pub open spec fn case_evidence(case: Case) -> Seq<EvidenceV> {
    dns_evidence(case.context) + tls_evidence(case.context) + timeout_evidence(case)
        + drift_evidence(case.context) + body_evidence(case.context) + match case.response {
        Some(r) => response_evidence(r),
        None => seq![],
    } + auth_evidence(case)
}

/// A skew of `i64::MIN` that exceeds the tolerance has no absolute value in
/// `i64`; such a context is outside what the collector accepts.
pub open spec fn context_drift_ok(c: crate::cases::Context) -> bool {
    !(c.client_clock_skew_secs == Some(i64::MIN) && (c.signature_tolerance_secs matches Some(t)
        && abs(i64::MIN as int) > t))
}

/// Whether [`collect_evidence`] accepts a case's context: a clock skew of
/// `i64::MIN`, whose magnitude has no `i64`, is out of range when it
/// exceeds the tolerance.
pub fn context_drift_in_range(c: &crate::cases::Context) -> (r: bool)
    ensures
        r == context_drift_ok(*c),
{
    match (c.client_clock_skew_secs, c.signature_tolerance_secs) {
        (Some(s), Some(t)) => !(s == i64::MIN && t < 0x8000_0000_0000_0000u64),
        _ => true,
    }
}

/// Two items describe the same fact by their identifying key: the field of
/// a validation error, the host of a DNS failure, the peer of a TLS failure.
pub open spec fn same_key(e: EvidenceV, c: EvidenceV) -> bool {
    match (e, c) {
        (
            EvidenceV::JsonValidationError { field: f1, .. },
            EvidenceV::JsonValidationError { field: f2, .. },
        ) => f1 == f2,
        (
            EvidenceV::DnsResolutionFailed { host: h1, .. },
            EvidenceV::DnsResolutionFailed { host: h2, .. },
        ) => h1 == h2,
        (
            EvidenceV::TlsHandshakeFailed { peer: p1, .. },
            EvidenceV::TlsHandshakeFailed { peer: p2, .. },
        ) => p1 == p2,
        _ => false,
    }
}

/// `candidate` is already represented in `existing`: an equal item, or an
/// item with the same identifying key.
pub open spec fn redundant(existing: Seq<EvidenceV>, candidate: EvidenceV) -> bool {
    existing.contains(candidate) || exists|i: int|
        0 <= i < existing.len() && #[trigger] same_key(existing[i], candidate)
}

/// `items` appended to `existing` in order, each skipped when redundant
/// with what is there by then.
pub open spec fn merge_items(existing: Seq<EvidenceV>, items: Seq<EvidenceV>) -> Seq<EvidenceV>
    decreases items.len(),
{
    if items.len() == 0 {
        existing
    } else {
        let prev = merge_items(existing, items.drop_last());
        if redundant(prev, items.last()) {
            prev
        } else {
            prev.push(items.last())
        }
    }
}

/// The evidence `collect_evidence` yields for a case and its log text.
pub open spec fn collected(case: Case, log: Seq<char>) -> Seq<EvidenceV> {
    merge_items(case_evidence(case), parsed_log(log))
}

fn same_key_exec(e: &Evidence, c: &Evidence) -> (r: bool)
    ensures
        r == same_key(e@, c@),
{
    match (e, c) {
        (
            Evidence::JsonValidationError { field: f1, .. },
            Evidence::JsonValidationError { field: f2, .. },
        ) => opt_string_equal(f1, f2),
        (
            Evidence::DnsResolutionFailed { host: h1, .. },
            Evidence::DnsResolutionFailed { host: h2, .. },
        ) => str_equal(h1.as_str(), h2.as_str()),
        (
            Evidence::TlsHandshakeFailed { peer: p1, .. },
            Evidence::TlsHandshakeFailed { peer: p2, .. },
        ) => str_equal(p1.as_str(), p2.as_str()),
        _ => false,
    }
}

/// Decide whether `candidate` is already represented in `existing`: an
/// equal item, or (for validation errors, DNS and TLS failures) an item
/// with the same field, host or peer.
pub fn is_redundant_with(existing: &[Evidence], candidate: &Evidence) -> (r: bool)
    ensures
        r == redundant(evs(existing@), candidate@),
{
    let mut i: usize = 0;
    while i < existing.len()
        invariant
            i <= existing.len(),
            forall|k: int|
                0 <= k < i ==> existing@[k]@ != candidate@ && !same_key(
                    #[trigger] existing@[k]@,
                    candidate@,
                ),
        decreases existing.len() - i,
    {
        if existing[i].same_as(candidate) {
            assert(evs(existing@)[i as int] == candidate@);
            return true;
        }
        if same_key_exec(&existing[i], candidate) {
            assert(same_key(evs(existing@)[i as int], candidate@));
            return true;
        }
        i = i + 1;
    }
    assert(!redundant(evs(existing@), candidate@)) by {
        if evs(existing@).contains(candidate@) {
            let k = choose|k: int| 0 <= k < evs(existing@).len() && evs(existing@)[k] == candidate@;
            assert(existing@[k]@ == candidate@);
        }
        if exists|k: int| 0 <= k < evs(existing@).len() && #[trigger] same_key(evs(existing@)[k], candidate@) {
            let k = choose|k: int| 0 <= k < evs(existing@).len() && #[trigger] same_key(evs(existing@)[k], candidate@);
            assert(same_key(existing@[k]@, candidate@));
        }
    }
    false
}

fn push_ev(out: &mut Vec<Evidence>, ev: Evidence)
    ensures
        evs(final(out)@) == evs(old(out)@).push(ev@),
{
    let ghost e = ev@;
    out.push(ev);
    assert(evs(out@) =~= evs(old(out)@).push(e));
}

fn or_owned(value: &Option<String>, default: &str) -> (r: String)
    ensures
        r@ == or_default(opt_view(*value), default@),
{
    match value {
        Some(v) => v.clone(),
        None => owned(default),
    }
}

fn push_context_evidence(out: &mut Vec<Evidence>, case: &Case)
    requires
        context_drift_ok(case.context),
    ensures
        evs(final(out)@) == evs(old(out)@) + dns_evidence(case.context) + tls_evidence(
            case.context,
        ) + timeout_evidence(*case) + drift_evidence(case.context) + body_evidence(case.context),
{
    let ghost c = case.context;
    let ghost o = evs(out@);
    if case.context.dns_resolved == Some(false) {
        let host = or_owned(&case.context.dns_host, "<unknown host>");
        let message = or_owned(&case.context.dns_error, "name resolution failed");
        push_ev(out, Evidence::DnsResolutionFailed { host, message });
    }
    assert(evs(out@) =~= o + dns_evidence(c));
    if case.context.tls_handshake_failed == Some(true) {
        let peer = or_owned(&case.context.tls_peer, "<unknown peer>");
        let reason = or_owned(&case.context.tls_failure_reason, "tls handshake failed");
        push_ev(out, Evidence::TlsHandshakeFailed { peer, reason });
    }
    assert(evs(out@) =~= o + dns_evidence(c) + tls_evidence(c));
    if case.response.is_none() {
        match (case.context.elapsed_ms_before_abort, case.request.timeout_ms) {
            (Some(elapsed), Some(timeout)) => {
                if elapsed >= timeout {
                    push_ev(
                        out,
                        Evidence::ConnectionTimeout { elapsed_ms: elapsed, timeout_ms: timeout },
                    );
                }
            },
            _ => {},
        }
    }
    let ghost o3 = evs(out@);
    assert(o3 =~= o + dns_evidence(c) + tls_evidence(c) + timeout_evidence(*case));
    match (case.context.client_clock_skew_secs, case.context.signature_tolerance_secs) {
        (Some(skew), Some(tol)) => {
            let magnitude: u64 = if skew < 0 {
                (-(skew as i128)) as u64
            } else {
                skew as u64
            };
            if magnitude > tol {
                let observed: i64 = if skew < 0 {
                    -skew
                } else {
                    skew
                };
                push_ev(out, Evidence::ClockDriftSecs { observed, tolerance_secs: tol });
            }
        },
        _ => {},
    }
    assert(evs(out@) =~= o3 + drift_evidence(c));
    let ghost o4 = evs(out@);
    if case.context.body_mutated_before_verification == Some(true) {
        push_ev(out, Evidence::BodyMutatedBeforeVerification);
    }
    assert(evs(out@) =~= o4 + body_evidence(c));
}

fn push_response_evidence(out: &mut Vec<Evidence>, resp: &Response)
    ensures
        evs(final(out)@) == evs(old(out)@) + response_evidence(*resp),
{
    let ghost o = evs(out@);
    push_ev(out, Evidence::HttpStatus(resp.status));
    if let Some(retry_after) = find_header(&resp.headers, "Retry-After") {
        let v = chars_of(retry_after.as_str());
        if let Some(n) = parse_u64(&v) {
            push_ev(out, Evidence::RetryAfterSecs(n));
        }
    }
    if let Some(err) = parse_validation_error_body(resp.body_summary.as_str()) {
        push_ev(out, err);
    }
    assert(evs(out@) =~= o + response_evidence(*resp));
}

fn push_auth_evidence(out: &mut Vec<Evidence>, case: &Case)
    ensures
        evs(final(out)@) == evs(old(out)@) + auth_evidence(*case),
{
    let ghost o = evs(out@);
    if find_header(&case.request.headers, "Authorization").is_some() {
        push_ev(
            out,
            Evidence::HeaderPresent { name: owned("Authorization"), value: Some(owned("***")) },
        );
    } else {
        push_ev(out, Evidence::HeaderMissing { name: owned("Authorization") });
    }
    assert(evs(out@) =~= o + auth_evidence(*case));
}

fn merge_into(out: &mut Vec<Evidence>, items: &Vec<Evidence>)
    ensures
        evs(final(out)@) == merge_items(evs(old(out)@), evs(items@)),
{
    let ghost base = evs(out@);
    let mut i: usize = 0;
    assert(evs(items@).take(0) =~= Seq::<EvidenceV>::empty());
    while i < items.len()
        invariant
            i <= items.len(),
            evs(out@) == merge_items(base, evs(items@).take(i as int)),
        decreases items.len() - i,
    {
        assert(evs(items@).take(i + 1).drop_last() =~= evs(items@).take(i as int));
        assert(evs(items@).take(i + 1).last() == items@[i as int]@);
        if !is_redundant_with(out.as_slice(), &items[i]) {
            push_ev(out, items[i].duplicate());
        }
        i = i + 1;
    }
    assert(evs(items@).take(i as int) =~= evs(items@));
}

/// Collect evidence from a case and the contents of its log file: the
/// case's own evidence in source order (context, response, request), then
/// each log-derived item that is not already represented, so the first
/// pushed item wins.
pub fn collect_evidence(case: &Case, log_text: &str) -> (out: Vec<Evidence>)
    requires
        context_drift_ok(case.context),
        log_drift_ok(log_text@),
    ensures
        evs(out@) == collected(*case, log_text@),
{
    let mut out: Vec<Evidence> = Vec::new();
    assert(evs(out@) =~= Seq::<EvidenceV>::empty());
    push_context_evidence(&mut out, case);
    let ghost before_response = evs(out@);
    if let Some(resp) = &case.response {
        push_response_evidence(&mut out, resp);
    } else {
        assert(evs(out@) =~= before_response + Seq::<EvidenceV>::empty());
    }
    push_auth_evidence(&mut out, case);
    assert(evs(out@) =~= case_evidence(*case));
    let items = parse_log(log_text);
    merge_into(&mut out, &items);
    out
}

// ---------------------------------------------------------------------
// Laws
// ---------------------------------------------------------------------

proof fn lemma_with_unique_facts()
    ensures
        forall|acc: Seq<EvidenceV>, e: EvidenceV, x: EvidenceV|
            #[trigger] with_unique(acc, e).contains(x) ==> acc.contains(x) || x == e,
        forall|acc: Seq<EvidenceV>, e: EvidenceV|
            acc.no_duplicates() ==> #[trigger] with_unique(acc, e).no_duplicates(),
{
    assert forall|acc: Seq<EvidenceV>, e: EvidenceV, x: EvidenceV|
        #[trigger] with_unique(acc, e).contains(x) implies acc.contains(x) || x == e by {
        if !acc.contains(e) {
            let k = choose|k: int| 0 <= k < acc.push(e).len() && acc.push(e)[k] == x;
            if k < acc.len() {
                assert(acc[k] == x);
            }
        }
    }
    assert forall|acc: Seq<EvidenceV>, e: EvidenceV|
        acc.no_duplicates() implies #[trigger] with_unique(acc, e).no_duplicates() by {
        if !acc.contains(e) {
            let r = acc.push(e);
            assert forall|i: int, j: int| 0 <= i < r.len() && 0 <= j < r.len() && i != j implies r[i]
                != r[j] by {
                if i < acc.len() && j < acc.len() {
                    assert(r[i] == acc[i] && r[j] == acc[j]);
                } else if i < acc.len() {
                    assert(r[i] == acc[i]);
                } else if j < acc.len() {
                    assert(r[j] == acc[j]);
                }
            }
        }
    }
}

/// The log line that a DNS failure item with host `h` stems from: it holds
/// the marker and a `host=` field whose value is `h`.
pub open spec fn dns_line_for(line: Seq<char>, h: Seq<char>) -> bool {
    contains_pat(line, "name resolution failed"@) && kv_value(line, "host"@) == Some(h)
}

/// The log line that a TLS failure item with peer `p` stems from: it holds
/// the marker and a `peer=` field whose value is `p`.
pub open spec fn tls_line_for(line: Seq<char>, p: Seq<char>) -> bool {
    contains_pat(line, "tls handshake failed"@) && kv_value(line, "peer"@) == Some(p)
}

/// Where a scanned item may come from: a DNS or TLS failure item needs a
/// line carrying its marker and its identifier.
pub open spec fn sourced_from(line: Seq<char>, x: EvidenceV) -> bool {
    match x {
        EvidenceV::DnsResolutionFailed { host, .. } => dns_line_for(line, host),
        EvidenceV::TlsHandshakeFailed { peer, .. } => tls_line_for(line, peer),
        _ => true,
    }
}

proof fn lemma_scan_markers(acc: Seq<EvidenceV>, line: Seq<char>)
    ensures
        acc.no_duplicates() ==> scan_markers(acc, line).no_duplicates(),
        forall|x: EvidenceV| #[trigger]
            scan_markers(acc, line).contains(x) ==> acc.contains(x) || sourced_from(line, x),
{
    lemma_with_unique_facts();
}

proof fn lemma_scan_lines(lines: Seq<Seq<char>>)
    ensures
        scan_lines(lines).no_duplicates(),
        forall|x: EvidenceV| #[trigger]
            scan_lines(lines).contains(x) ==> exists|i: int|
                0 <= i < lines.len() && sourced_from(trim(#[trigger] lines[i]), x),
    decreases lines.len(),
{
    if lines.len() > 0 {
        let prev = lines.drop_last();
        lemma_scan_lines(prev);
        let line = trim(lines.last());
        if line.len() > 0 {
            lemma_scan_markers(scan_lines(prev), line);
        }
        assert forall|x: EvidenceV| #[trigger] scan_lines(lines).contains(x) implies exists|i: int|
            0 <= i < lines.len() && sourced_from(trim(#[trigger] lines[i]), x) by {
            if scan_lines(prev).contains(x) {
                let i = choose|i: int| 0 <= i < prev.len() && sourced_from(trim(#[trigger] prev[i]), x);
                assert(lines[i] == prev[i]);
            } else {
                assert(sourced_from(trim(lines[lines.len() - 1]), x));
            }
        }
    } else {
        assert(scan_lines(lines) =~= Seq::<EvidenceV>::empty());
    }
}

/// What `parse_log` returns holds no two equal items, and every DNS or TLS
/// failure item in it stems from a log line that carries the marker and a
/// `host=` (`peer=`) field with that host (peer): a line that only
/// mentions the marker yields no such item.
pub proof fn lemma_parsed_log_is_sourced(t: Seq<char>)
    ensures
        parsed_log(t).no_duplicates(),
        forall|x: EvidenceV| #[trigger]
            parsed_log(t).contains(x) ==> exists|i: int|
                0 <= i < log_lines(t).len() && sourced_from(trim(#[trigger] log_lines(t)[i]), x),
{
    lemma_scan_lines(log_lines(t));
}

/// No two items are equal or share an identifying key (validation field,
/// DNS host, TLS peer).
pub open spec fn distinct_facts(s: Seq<EvidenceV>) -> bool {
    forall|i: int, j: int|
        0 <= i < j < s.len() ==> #[trigger] s[i] != #[trigger] s[j] && !same_key(s[i], s[j])
}

proof fn lemma_merge_items_distinct(existing: Seq<EvidenceV>, items: Seq<EvidenceV>)
    requires
        distinct_facts(existing),
    ensures
        distinct_facts(merge_items(existing, items)),
    decreases items.len(),
{
    if items.len() > 0 {
        lemma_merge_items_distinct(existing, items.drop_last());
        let prev = merge_items(existing, items.drop_last());
        let c = items.last();
        if !redundant(prev, c) {
            let r = prev.push(c);
            assert forall|i: int, j: int| 0 <= i < j < r.len() implies #[trigger] r[i] != #[trigger] r[j]
                && !same_key(r[i], r[j]) by {
                if j == prev.len() {
                    assert(r[i] == prev[i]);
                    assert(!same_key(prev[i], c));
                    assert(prev.contains(prev[i]));
                } else {
                    assert(r[i] == prev[i] && r[j] == prev[j]);
                }
            }
        }
    }
}

/// Position of a variant in the case's source order.
spec fn source_rank(e: EvidenceV) -> int {
    match e {
        EvidenceV::DnsResolutionFailed { .. } => 0,
        EvidenceV::TlsHandshakeFailed { .. } => 1,
        EvidenceV::ConnectionTimeout { .. } => 2,
        EvidenceV::ClockDriftSecs { .. } => 3,
        EvidenceV::BodyMutatedBeforeVerification => 4,
        EvidenceV::HttpStatus(_) => 5,
        EvidenceV::RetryAfterSecs(_) => 6,
        EvidenceV::JsonValidationError { .. } => 7,
        EvidenceV::HeaderPresent { .. } => 8,
        EvidenceV::HeaderMissing { .. } => 8,
        _ => 9,
    }
}

spec fn ranks_increase(s: Seq<EvidenceV>) -> bool {
    forall|i: int, j: int| 0 <= i < j < s.len() ==> source_rank(#[trigger] s[i]) < source_rank(#[trigger] s[j])
}

spec fn ranks_within(s: Seq<EvidenceV>, lo: int, hi: int) -> bool {
    forall|i: int| 0 <= i < s.len() ==> lo <= source_rank(#[trigger] s[i]) && source_rank(s[i]) < hi
}

proof fn lemma_concat_ranks(a: Seq<EvidenceV>, b: Seq<EvidenceV>, lo: int, mid: int, hi: int)
    requires
        ranks_increase(a),
        ranks_increase(b),
        ranks_within(a, lo, mid),
        ranks_within(b, mid, hi),
        lo <= mid <= hi,
    ensures
        ranks_increase(a + b),
        ranks_within(a + b, lo, hi),
{
    let r = a + b;
    assert forall|i: int, j: int| 0 <= i < j < r.len() implies source_rank(#[trigger] r[i])
        < source_rank(#[trigger] r[j]) by {
        if j < a.len() {
            assert(r[i] == a[i] && r[j] == a[j]);
        } else if i < a.len() {
            assert(r[i] == a[i] && r[j] == b[j - a.len()]);
        } else {
            assert(r[i] == b[i - a.len()] && r[j] == b[j - a.len()]);
        }
    }
    assert forall|i: int| 0 <= i < r.len() implies lo <= source_rank(#[trigger] r[i]) && source_rank(
        r[i],
    ) < hi by {
        if i < a.len() {
            assert(r[i] == a[i]);
            assert(lo <= source_rank(a[i]) && source_rank(a[i]) < mid);
        } else {
            assert(r[i] == b[i - a.len()]);
            assert(mid <= source_rank(b[i - a.len()]) && source_rank(b[i - a.len()]) < hi);
        }
    }
}

proof fn lemma_case_evidence_ranks(case: Case)
    ensures
        ranks_increase(case_evidence(case)),
{
    let c = case.context;
    let resp = match case.response {
        Some(r) => response_evidence(r),
        None => seq![],
    };
    lemma_concat_ranks(dns_evidence(c), tls_evidence(c), 0, 1, 2);
    let a1 = dns_evidence(c) + tls_evidence(c);
    lemma_concat_ranks(a1, timeout_evidence(case), 0, 2, 3);
    let a2 = a1 + timeout_evidence(case);
    lemma_concat_ranks(a2, drift_evidence(c), 0, 3, 4);
    let a3 = a2 + drift_evidence(c);
    lemma_concat_ranks(a3, body_evidence(c), 0, 4, 5);
    let a4 = a3 + body_evidence(c);
    if let Some(r) = case.response {
        let retry = match header_value(r.headers@, "Retry-After"@) {
            Some(v) => match parse_unsigned(v, u64::MAX as int) {
                Some(n) => seq![EvidenceV::RetryAfterSecs(n as u64)],
                None => seq![],
            },
            None => seq![],
        };
        let validation = match body_validation(r.body_summary@) {
            Some(e) => seq![e],
            None => seq![],
        };
        lemma_concat_ranks(seq![EvidenceV::HttpStatus(r.status)], retry, 5, 6, 7);
        lemma_concat_ranks(seq![EvidenceV::HttpStatus(r.status)] + retry, validation, 5, 7, 8);
        assert(resp == seq![EvidenceV::HttpStatus(r.status)] + retry + validation);
    }
    lemma_concat_ranks(a4, resp, 0, 5, 8);
    lemma_concat_ranks(a4 + resp, auth_evidence(case), 0, 8, 9);
}

/// What `collect_evidence` returns holds no two equal items and no two
/// items that share an identifying key: one line per validation field,
/// per DNS host and per TLS peer, whichever source reported it first.
pub proof fn lemma_collected_distinct_facts(case: Case, log: Seq<char>)
    ensures
        distinct_facts(collected(case, log)),
{
    lemma_case_evidence_ranks(case);
    let ce = case_evidence(case);
    assert forall|i: int, j: int| 0 <= i < j < ce.len() implies #[trigger] ce[i] != #[trigger] ce[j]
        && !same_key(ce[i], ce[j]) by {
        assert(source_rank(ce[i]) < source_rank(ce[j]));
    }
    lemma_merge_items_distinct(ce, parsed_log(log));
}

proof fn lemma_redundant_push(s: Seq<EvidenceV>, y: EvidenceV, x: EvidenceV)
    requires
        redundant(s, x),
    ensures
        redundant(s.push(y), x),
{
    if s.contains(x) {
        let k = choose|k: int| 0 <= k < s.len() && s[k] == x;
        assert(s.push(y)[k] == x);
    } else {
        let i = choose|i: int| 0 <= i < s.len() && #[trigger] same_key(s[i], x);
        assert(s.push(y)[i] == s[i]);
        assert(same_key(s.push(y)[i], x));
    }
}

proof fn lemma_merge_items_covers(existing: Seq<EvidenceV>, items: Seq<EvidenceV>)
    ensures
        forall|x: EvidenceV| #[trigger] items.contains(x) ==> redundant(merge_items(existing, items), x),
        forall|x: EvidenceV| #[trigger]
            merge_items(existing, items).contains(x) ==> existing.contains(x) || items.contains(x),
    decreases items.len(),
{
    if items.len() > 0 {
        let rest = items.drop_last();
        let c = items.last();
        lemma_merge_items_covers(existing, rest);
        let prev = merge_items(existing, rest);
        let r = merge_items(existing, items);
        assert forall|x: EvidenceV| #[trigger] items.contains(x) implies redundant(r, x) by {
            let k = choose|k: int| 0 <= k < items.len() && items[k] == x;
            if k < rest.len() {
                assert(rest[k] == x);
                assert(rest.contains(x));
                if !redundant(prev, c) {
                    lemma_redundant_push(prev, c, x);
                }
            } else if !redundant(prev, c) {
                assert(r[prev.len() as int] == c);
            }
        }
        assert forall|x: EvidenceV| #[trigger] r.contains(x) implies existing.contains(x)
            || items.contains(x) by {
            let k = choose|k: int| 0 <= k < r.len() && r[k] == x;
            if k < prev.len() {
                assert(prev[k] == x);
                assert(prev.contains(x));
                if rest.contains(x) {
                    let j = choose|j: int| 0 <= j < rest.len() && rest[j] == x;
                    assert(items[j] == x);
                }
            } else {
                assert(items[items.len() - 1] == x);
            }
        }
    } else {
        assert(merge_items(existing, items) == existing);
    }
}

/// `collect_evidence` keeps every fact `parse_log` finds in the same log:
/// each log item is in the result, or an item with the same identifying key
/// is; and every item of the result comes from the case or from the log.
pub proof fn lemma_collected_covers_parsed_log(case: Case, log: Seq<char>)
    ensures
        forall|x: EvidenceV| #[trigger]
            parsed_log(log).contains(x) ==> redundant(collected(case, log), x),
        forall|x: EvidenceV| #[trigger]
            collected(case, log).contains(x) ==> case_evidence(case).contains(x) || parsed_log(
                log,
            ).contains(x),
{
    lemma_merge_items_covers(case_evidence(case), parsed_log(log));
}

/// The items of `s` that are not in `acc`, in order.
pub open spec fn unseen(acc: Seq<EvidenceV>, s: Seq<EvidenceV>) -> Seq<EvidenceV>
    decreases s.len(),
{
    if s.len() == 0 {
        s
    } else if acc.contains(s.last()) {
        unseen(acc, s.drop_last())
    } else {
        unseen(acc, s.drop_last()).push(s.last())
    }
}

proof fn lemma_unseen_contains(acc: Seq<EvidenceV>, s: Seq<EvidenceV>, x: EvidenceV)
    ensures
        unseen(acc, s).contains(x) <==> (s.contains(x) && !acc.contains(x)),
    decreases s.len(),
{
    if s.len() > 0 {
        let p = s.drop_last();
        lemma_unseen_contains(acc, p, x);
        let u = unseen(acc, p);
        if s.contains(x) && !acc.contains(x) {
            let k = choose|k: int| 0 <= k < s.len() && s[k] == x;
            if k < p.len() {
                assert(p[k] == x);
            }
        }
        if p.contains(x) {
            let k = choose|k: int| 0 <= k < p.len() && p[k] == x;
            assert(s[k] == x);
        }
        if !acc.contains(s.last()) {
            let v = u.push(s.last());
            assert(v[u.len() as int] == s.last());
            if v.contains(x) {
                let k = choose|k: int| 0 <= k < v.len() && v[k] == x;
                if k < u.len() {
                    assert(u[k] == x);
                }
            }
            if u.contains(x) {
                let k = choose|k: int| 0 <= k < u.len() && u[k] == x;
                assert(v[k] == x);
            }
        }
    }
}

proof fn lemma_concat_contains(a: Seq<EvidenceV>, b: Seq<EvidenceV>, x: EvidenceV)
    ensures
        (a + b).contains(x) <==> (a.contains(x) || b.contains(x)),
{
    if (a + b).contains(x) {
        let k = choose|k: int| 0 <= k < (a + b).len() && (a + b)[k] == x;
        if k < a.len() {
            assert(a[k] == x);
        } else {
            assert(b[k - a.len()] == x);
        }
    }
    if a.contains(x) {
        let k = choose|k: int| 0 <= k < a.len() && a[k] == x;
        assert((a + b)[k] == x);
    }
    if b.contains(x) {
        let k = choose|k: int| 0 <= k < b.len() && b[k] == x;
        assert((a + b)[a.len() + k] == x);
    }
}

proof fn lemma_with_unique_after(acc: Seq<EvidenceV>, s: Seq<EvidenceV>, e: EvidenceV)
    ensures
        with_unique(acc + unseen(acc, s), e) == acc + unseen(acc, with_unique(s, e)),
{
    let u = unseen(acc, s);
    lemma_concat_contains(acc, u, e);
    lemma_unseen_contains(acc, s, e);
    if !s.contains(e) {
        assert(s.push(e).drop_last() =~= s);
        assert(s.push(e).last() == e);
        if !acc.contains(e) {
            assert((acc + u).push(e) =~= acc + u.push(e));
        }
    }
}

proof fn lemma_with_unique_after_all()
    ensures
        forall|acc: Seq<EvidenceV>, s: Seq<EvidenceV>, e: EvidenceV|
            #[trigger] with_unique(acc + unseen(acc, s), e) == acc + unseen(acc, with_unique(s, e)),
{
    assert forall|acc: Seq<EvidenceV>, s: Seq<EvidenceV>, e: EvidenceV|
        #[trigger] with_unique(acc + unseen(acc, s), e) == acc + unseen(acc, with_unique(s, e)) by {
        lemma_with_unique_after(acc, s, e);
    }
}

proof fn lemma_scan_line_after(acc: Seq<EvidenceV>, s: Seq<EvidenceV>, raw: Seq<char>)
    ensures
        scan_line(acc + unseen(acc, s), raw) == acc + unseen(acc, scan_line(s, raw)),
{
    lemma_with_unique_after_all();
    let line = trim(raw);
    if line.len() > 0 {
        let s1 = step_signature(s, line);
        assert(step_signature(acc + unseen(acc, s), line) == acc + unseen(acc, s1));
        let s2 = step_body(s1, line);
        assert(step_body(acc + unseen(acc, s1), line) == acc + unseen(acc, s2));
        let s3 = step_drift(s2, line);
        assert(step_drift(acc + unseen(acc, s2), line) == acc + unseen(acc, s3));
        let s4 = step_schema(s3, line);
        assert(step_schema(acc + unseen(acc, s3), line) == acc + unseen(acc, s4));
        let s5 = step_burst(s4, line);
        assert(step_burst(acc + unseen(acc, s4), line) == acc + unseen(acc, s5));
        let s6 = step_dns(s5, line);
        assert(step_dns(acc + unseen(acc, s5), line) == acc + unseen(acc, s6));
        let s7 = step_tls(s6, line);
        assert(step_tls(acc + unseen(acc, s6), line) == acc + unseen(acc, s7));
        let s8 = step_timeout(s7, line);
        assert(step_timeout(acc + unseen(acc, s7), line) == acc + unseen(acc, s8));
    }
}

proof fn lemma_scan_lines_concat(l1: Seq<Seq<char>>, l2: Seq<Seq<char>>)
    ensures
        scan_lines(l1 + l2) == scan_lines(l1) + unseen(scan_lines(l1), scan_lines(l2)),
    decreases l2.len(),
{
    let a = scan_lines(l1);
    if l2.len() == 0 {
        assert(l1 + l2 =~= l1);
        assert(scan_lines(l2) =~= Seq::<EvidenceV>::empty());
        assert(a + unseen(a, scan_lines(l2)) =~= a);
    } else {
        lemma_scan_lines_concat(l1, l2.drop_last());
        assert((l1 + l2).drop_last() =~= l1 + l2.drop_last());
        assert((l1 + l2).last() == l2.last());
        lemma_scan_line_after(a, scan_lines(l2.drop_last()), l2.last());
    }
}

proof fn lemma_split_lines_join(x: Seq<char>, y: Seq<char>)
    ensures
        split_lines(x + seq!['\n'] + y) == (log_lines(x) + split_lines(y).0, split_lines(y).1),
    decreases y.len(),
{
    let nl: Seq<char> = seq!['\n'];
    if y.len() == 0 {
        assert(x + nl + y =~= x.push('\n'));
        assert(x.push('\n').drop_last() =~= x);
        assert(log_lines(x) + Seq::<Seq<char>>::empty() =~= log_lines(x));
    } else {
        lemma_split_lines_join(x, y.drop_last());
        assert((x + nl + y).drop_last() =~= x + nl + y.drop_last());
        assert((x + nl + y).last() == y.last());
        let (dy, cy) = split_lines(y.drop_last());
        assert((log_lines(x) + dy).push(cy) =~= log_lines(x) + dy.push(cy));
    }
}

/// The log of two texts joined by a line break: `parse_log` of the joined
/// text is `parse_log` of the first, followed, in order, by the items of
/// `parse_log` of the second that the first did not already yield.
pub proof fn lemma_parsed_log_of_joined_texts(a: Seq<char>, b: Seq<char>)
    ensures
        parsed_log(a + seq!['\n'] + b) == parsed_log(a) + unseen(parsed_log(a), parsed_log(b)),
{
    lemma_split_lines_join(a, b);
    assert(log_lines(a + seq!['\n'] + b) =~= log_lines(a) + log_lines(b));
    lemma_scan_lines_concat(log_lines(a), log_lines(b));
}

/// What `collect_evidence` returns for an empty log is the case's own
/// evidence; for any log, it is that, followed by each item of
/// `parse_log`'s result that is not redundant with what is already there,
/// so on a clash between sources the case's item wins.
pub proof fn lemma_collected_is_case_then_log(case: Case, log: Seq<char>)
    ensures
        collected(case, Seq::empty()) == case_evidence(case),
        collected(case, log) == merge_items(collected(case, Seq::empty()), parsed_log(log)),
{
    let e: Seq<char> = Seq::empty();
    assert(split_lines(e) == (Seq::<Seq<char>>::empty(), e));
    assert(log_lines(e) =~= seq![e]);
    assert(seq![e].drop_last() =~= Seq::<Seq<char>>::empty());
    assert(trim_start(e) == e);
    assert(trim_end(e) == e);
    assert(seq![e].last() == e);
    assert(scan_lines(Seq::<Seq<char>>::empty()) == Seq::<EvidenceV>::empty());
    assert(scan_lines(seq![e]) == scan_line(Seq::<EvidenceV>::empty(), e));
    assert(parsed_log(e) == scan_line(Seq::<EvidenceV>::empty(), e));
    assert(parsed_log(e) =~= Seq::<EvidenceV>::empty());
}

/// The items one trimmed log line yields, by the documented marker grammar:
/// each marker substring, or `key=value` set, and the item it stands for.
pub open spec fn line_yields(line: Seq<char>, x: EvidenceV) -> bool {
    match x {
        EvidenceV::SignatureMismatch => contains_pat(line, "reason=signature_mismatch"@)
            || contains_pat(line, "signature verification failed"@),
        EvidenceV::BodyMutatedBeforeVerification => contains_pat(line, "body_modified=true"@)
            || contains_pat(line, "body_mutated=true"@),
        EvidenceV::ClockDriftSecs { observed, tolerance_secs } => kv_i64(line, "drift_secs"@)
            matches Some(o) && kv_u64(line, "tolerance_secs"@) == Some(tolerance_secs as int)
            && observed as int == abs(o) && abs(o) > tolerance_secs,
        EvidenceV::JsonValidationError { field, message } => contains_pat(
            line,
            "schema validation failed"@,
        ) && field == kv_value(line, "field"@) && message == "schema validation failed"@,
        EvidenceV::RetryAfterSecs(n) => contains_pat(line, "burst above limit"@) && kv_u64(
            line,
            "retry_after_secs"@,
        ) == Some(n as int),
        EvidenceV::RateLimitObserved { observed_rps, limit_rps } => contains_pat(
            line,
            "burst above limit"@,
        ) && kv_u32(line, "observed_rps"@) == Some(observed_rps as int) && kv_u32(
            line,
            "limit_rps"@,
        ) == Some(limit_rps as int),
        EvidenceV::DnsResolutionFailed { host, message } => contains_pat(
            line,
            "name resolution failed"@,
        ) && kv_value(line, "host"@) == Some(host) && message == or_default(
            kv_value(line, "error"@),
            "no such host"@,
        ),
        EvidenceV::TlsHandshakeFailed { peer, reason } => contains_pat(
            line,
            "tls handshake failed"@,
        ) && kv_value(line, "peer"@) == Some(peer) && reason == or_default(
            kv_value(line, "error"@),
            "tls handshake failed"@,
        ),
        EvidenceV::ConnectionTimeout { elapsed_ms, timeout_ms } => contains_pat(
            line,
            "upstream timeout"@,
        ) && kv_u64(line, "elapsed_ms"@) == Some(elapsed_ms as int) && kv_u64(
            line,
            "timeout_ms"@,
        ) == Some(timeout_ms as int),
        _ => false,
    }
}

proof fn lemma_with_unique_iff()
    ensures
        forall|acc: Seq<EvidenceV>, e: EvidenceV, x: EvidenceV|
            #[trigger] with_unique(acc, e).contains(x) <==> (acc.contains(x) || x == e),
{
    lemma_with_unique_facts();
    assert forall|acc: Seq<EvidenceV>, e: EvidenceV, x: EvidenceV|
        acc.contains(x) || x == e implies #[trigger] with_unique(acc, e).contains(x) by {
        if !acc.contains(e) {
            let r = acc.push(e);
            if acc.contains(x) {
                let k = choose|k: int| 0 <= k < acc.len() && acc[k] == x;
                assert(r[k] == x);
            } else {
                assert(r[acc.len() as int] == x);
            }
        }
    }
}

proof fn lemma_kv_ranges(line: Seq<char>, key: Seq<char>)
    ensures
        kv_u64(line, key) matches Some(n) ==> 0 <= n <= u64::MAX,
        kv_u32(line, key) matches Some(n) ==> 0 <= n <= u32::MAX,
        kv_i64(line, key) matches Some(n) ==> i64::MIN <= n <= i64::MAX,
{
    if let Some(v) = kv_value(line, key) {
        lemma_parse_unsigned_range(v, u64::MAX as int);
        lemma_parse_unsigned_range(v, u32::MAX as int);
        lemma_parse_signed_range(v, i64::MIN as int, i64::MAX as int);
    }
}

/// The drift condition of [`line_drift_ok`] on a trimmed line.
spec fn drift_in_range(line: Seq<char>) -> bool {
    !(kv_i64(line, "drift_secs"@) == Some(i64::MIN as int) && (kv_u64(line, "tolerance_secs"@)
        matches Some(t) && abs(i64::MIN as int) > t))
}

proof fn lemma_scan_markers_yields(acc: Seq<EvidenceV>, line: Seq<char>)
    ensures
        forall|x: EvidenceV|
            acc.contains(x) || line_yields(line, x) ==> #[trigger] scan_markers(acc, line).contains(
                x,
            ),
        drift_in_range(line) ==> forall|x: EvidenceV| #[trigger]
            scan_markers(acc, line).contains(x) ==> acc.contains(x) || line_yields(line, x),
{
    lemma_with_unique_iff();
    lemma_kv_ranges(line, "drift_secs"@);
    lemma_kv_ranges(line, "tolerance_secs"@);
    lemma_kv_ranges(line, "retry_after_secs"@);
    lemma_kv_ranges(line, "observed_rps"@);
    lemma_kv_ranges(line, "limit_rps"@);
    lemma_kv_ranges(line, "elapsed_ms"@);
    lemma_kv_ranges(line, "timeout_ms"@);
    let a1 = step_signature(acc, line);
    let a2 = step_body(a1, line);
    let a3 = step_drift(a2, line);
    let a4 = step_schema(a3, line);
    let a5 = step_burst(a4, line);
    let a6 = step_dns(a5, line);
    let a7 = step_tls(a6, line);
    let a8 = step_timeout(a7, line);
    assert forall|x: EvidenceV| acc.contains(x) || line_yields(line, x) implies #[trigger] a8.contains(
        x,
    ) by {
        assert(acc.contains(x) || (x is SignatureMismatch && line_yields(line, x)) ==> a1.contains(
            x,
        ));
        assert(a1.contains(x) || (x is BodyMutatedBeforeVerification && line_yields(line, x))
            ==> a2.contains(x));
        assert(a2.contains(x) || (x is ClockDriftSecs && line_yields(line, x)) ==> a3.contains(x));
        assert(a3.contains(x) || (x is JsonValidationError && line_yields(line, x)) ==> a4.contains(
            x,
        ));
        assert(a4.contains(x) || ((x is RetryAfterSecs || x is RateLimitObserved) && line_yields(
            line,
            x,
        )) ==> a5.contains(x));
        assert(a5.contains(x) || (x is DnsResolutionFailed && line_yields(line, x)) ==> a6.contains(
            x,
        ));
        assert(a6.contains(x) || (x is TlsHandshakeFailed && line_yields(line, x)) ==> a7.contains(
            x,
        ));
        assert(a7.contains(x) || (x is ConnectionTimeout && line_yields(line, x)) ==> a8.contains(
            x,
        ));
    }
    if drift_in_range(line) {
        assert forall|x: EvidenceV| #[trigger] a8.contains(x) implies acc.contains(x) || line_yields(
            line,
            x,
        ) by {
            assert(a1.contains(x) ==> acc.contains(x) || line_yields(line, x));
            assert(a2.contains(x) ==> a1.contains(x) || line_yields(line, x));
            assert(a3.contains(x) ==> a2.contains(x) || line_yields(line, x));
            assert(a4.contains(x) ==> a3.contains(x) || line_yields(line, x));
            assert(a5.contains(x) ==> a4.contains(x) || line_yields(line, x));
            assert(a6.contains(x) ==> a5.contains(x) || line_yields(line, x));
            assert(a7.contains(x) ==> a6.contains(x) || line_yields(line, x));
            assert(a8.contains(x) ==> a7.contains(x) || line_yields(line, x));
        }
    }
}

proof fn lemma_scan_lines_yields(lines: Seq<Seq<char>>)
    ensures
        forall|i: int, x: EvidenceV|
            0 <= i < lines.len() && trim(#[trigger] lines[i]).len() > 0 && line_yields(
                trim(lines[i]),
                x,
            ) ==> #[trigger] scan_lines(lines).contains(x),
        (forall|i: int| 0 <= i < lines.len() ==> #[trigger] line_drift_ok(lines[i])) ==> forall|
            x: EvidenceV,
        | #[trigger] scan_lines(lines).contains(x) ==> exists|i: int|
            0 <= i < lines.len() && trim(#[trigger] lines[i]).len() > 0 && line_yields(
                trim(lines[i]),
                x,
            ),
    decreases lines.len(),
{
    if lines.len() > 0 {
        let prev = lines.drop_last();
        let raw = lines.last();
        let line = trim(raw);
        let before = scan_lines(prev);
        lemma_scan_lines_yields(prev);
        if line.len() > 0 {
            lemma_scan_markers_yields(before, line);
        }
        assert forall|i: int, x: EvidenceV|
            0 <= i < lines.len() && trim(#[trigger] lines[i]).len() > 0 && line_yields(
                trim(lines[i]),
                x,
            ) implies #[trigger] scan_lines(lines).contains(x) by {
            if i < prev.len() {
                assert(lines[i] == prev[i]);
                assert(before.contains(x));
            } else {
                assert(lines[i] == raw);
            }
        }
        if forall|i: int| 0 <= i < lines.len() ==> #[trigger] line_drift_ok(lines[i]) {
            assert(line_drift_ok(lines[lines.len() - 1]));
            assert forall|i: int| 0 <= i < prev.len() implies #[trigger] line_drift_ok(prev[i]) by {
                assert(lines[i] == prev[i]);
                assert(line_drift_ok(lines[i]));
            }
            assert forall|x: EvidenceV| #[trigger] scan_lines(lines).contains(x) implies exists|i: int|
                0 <= i < lines.len() && trim(#[trigger] lines[i]).len() > 0 && line_yields(
                    trim(lines[i]),
                    x,
                ) by {
                if before.contains(x) {
                    let i = choose|i: int|
                        0 <= i < prev.len() && trim(#[trigger] prev[i]).len() > 0 && line_yields(
                            trim(prev[i]),
                            x,
                        );
                    assert(lines[i] == prev[i]);
                } else {
                    assert(line.len() > 0);
                    assert(drift_in_range(line));
                    assert(line_yields(line, x));
                    assert(lines[lines.len() - 1] == raw);
                }
            }
        }
    }
}

/// The log of `t` holds every item that one of its non-blank lines yields
/// by the documented marker grammar ([`line_yields`]): for instance a line
/// containing `body_modified=true` or `body_mutated=true` makes
/// `BodyMutatedBeforeVerification` appear.
pub proof fn lemma_parse_log_finds_markers(t: Seq<char>, i: int, x: EvidenceV)
    requires
        0 <= i < log_lines(t).len(),
        trim(log_lines(t)[i]).len() > 0,
        line_yields(trim(log_lines(t)[i]), x),
    ensures
        parsed_log(t).contains(x),
{
    lemma_scan_lines_yields(log_lines(t));
}

/// Every item of the log of `t` is yielded, by the documented marker
/// grammar, by one of its non-blank lines.
pub proof fn lemma_parse_log_items_have_markers(t: Seq<char>, x: EvidenceV)
    requires
        log_drift_ok(t),
        parsed_log(t).contains(x),
    ensures
        exists|i: int|
            0 <= i < log_lines(t).len() && trim(#[trigger] log_lines(t)[i]).len() > 0
                && line_yields(trim(log_lines(t)[i]), x),
{
    lemma_scan_lines_yields(log_lines(t));
}

/// The facts a case itself reports, field by field: the caller's DNS and
/// TLS failures (with placeholders for missing host, peer or message), a
/// client timeout when no response came and the wait reached the timeout,
/// a clock skew whose magnitude exceeds the tolerance, a mutated body, the
/// response status, a numeric `Retry-After`, a validation error in the
/// response body, and whether the request carried `Authorization` (its
/// value masked).
pub open spec fn case_fact(case: Case, x: EvidenceV) -> bool {
    let c = case.context;
    match x {
        EvidenceV::DnsResolutionFailed { host, message } => c.dns_resolved == Some(false)
            && host == (match c.dns_host {
            Some(h) => h@,
            None => "<unknown host>"@,
        }) && message == (match c.dns_error {
            Some(m) => m@,
            None => "name resolution failed"@,
        }),
        EvidenceV::TlsHandshakeFailed { peer, reason } => c.tls_handshake_failed == Some(true)
            && peer == (match c.tls_peer {
            Some(p) => p@,
            None => "<unknown peer>"@,
        }) && reason == (match c.tls_failure_reason {
            Some(r) => r@,
            None => "tls handshake failed"@,
        }),
        EvidenceV::ConnectionTimeout { elapsed_ms, timeout_ms } => case.response is None
            && c.elapsed_ms_before_abort == Some(elapsed_ms) && case.request.timeout_ms == Some(
            timeout_ms,
        ) && elapsed_ms >= timeout_ms,
        EvidenceV::ClockDriftSecs { observed, tolerance_secs } => c.client_clock_skew_secs
            matches Some(skew) && c.signature_tolerance_secs == Some(tolerance_secs) && observed
            as int == abs(skew as int) && abs(skew as int) > tolerance_secs,
        EvidenceV::BodyMutatedBeforeVerification => c.body_mutated_before_verification == Some(
            true,
        ),
        EvidenceV::HttpStatus(s) => case.response matches Some(r) && r.status == s,
        EvidenceV::RetryAfterSecs(n) => case.response matches Some(r) && header_value(
            r.headers@,
            "Retry-After"@,
        ) matches Some(v) && parse_unsigned(v, u64::MAX as int) == Some(n as int),
        EvidenceV::JsonValidationError { .. } => case.response matches Some(r) && body_validation(
            r.body_summary@,
        ) == Some(x),
        EvidenceV::HeaderPresent { name, value } => header_value(
            case.request.headers@,
            "Authorization"@,
        ) is Some && name == "Authorization"@ && value == Some("***"@),
        EvidenceV::HeaderMissing { name } => header_value(case.request.headers@, "Authorization"@)
            is None && name == "Authorization"@,
        _ => false,
    }
}

proof fn lemma_merge_items_keeps(existing: Seq<EvidenceV>, items: Seq<EvidenceV>)
    ensures
        merge_items(existing, items).len() >= existing.len(),
        merge_items(existing, items).take(existing.len() as int) == existing,
    decreases items.len(),
{
    if items.len() > 0 {
        lemma_merge_items_keeps(existing, items.drop_last());
        let prev = merge_items(existing, items.drop_last());
        assert(prev.push(items.last()).take(existing.len() as int) =~= prev.take(
            existing.len() as int,
        ));
    } else {
        assert(existing.take(existing.len() as int) =~= existing);
    }
}

proof fn lemma_case_evidence_facts(case: Case, x: EvidenceV)
    ensures
        case_fact(case, x) ==> case_evidence(case).contains(x),
        context_drift_ok(case.context) ==> (case_evidence(case).contains(x) ==> case_fact(case, x)),
{
    let c = case.context;
    let resp = match case.response {
        Some(r) => response_evidence(r),
        None => seq![],
    };
    let a1 = dns_evidence(c) + tls_evidence(c);
    let a2 = a1 + timeout_evidence(case);
    let a3 = a2 + drift_evidence(c);
    let a4 = a3 + body_evidence(c);
    let a5 = a4 + resp;
    lemma_concat_contains(dns_evidence(c), tls_evidence(c), x);
    lemma_concat_contains(a1, timeout_evidence(case), x);
    lemma_concat_contains(a2, drift_evidence(c), x);
    lemma_concat_contains(a3, body_evidence(c), x);
    lemma_concat_contains(a4, resp, x);
    lemma_concat_contains(a5, auth_evidence(case), x);
    assert(case_evidence(case) == a5 + auth_evidence(case));
    if let Some(r) = case.response {
        let retry = match header_value(r.headers@, "Retry-After"@) {
            Some(v) => match parse_unsigned(v, u64::MAX as int) {
                Some(n) => seq![EvidenceV::RetryAfterSecs(n as u64)],
                None => seq![],
            },
            None => seq![],
        };
        let validation = match body_validation(r.body_summary@) {
            Some(e) => seq![e],
            None => seq![],
        };
        if let Some(v) = header_value(r.headers@, "Retry-After"@) {
            lemma_parse_unsigned_range(v, u64::MAX as int);
        }
        lemma_concat_contains(seq![EvidenceV::HttpStatus(r.status)], retry, x);
        lemma_concat_contains(seq![EvidenceV::HttpStatus(r.status)] + retry, validation, x);
        assert(resp == seq![EvidenceV::HttpStatus(r.status)] + retry + validation);
        assert(seq![EvidenceV::HttpStatus(r.status)].contains(x) <==> x == EvidenceV::HttpStatus(
            r.status,
        )) by {
            if seq![EvidenceV::HttpStatus(r.status)].contains(x) {
                let k = choose|k: int| 0 <= k < 1 && seq![EvidenceV::HttpStatus(r.status)][k] == x;
            }
            if x == EvidenceV::HttpStatus(r.status) {
                assert(seq![EvidenceV::HttpStatus(r.status)][0] == x);
            }
        }
        if let Some(e) = body_validation(r.body_summary@) {
            assert(validation[0] == e);
        }
        if retry.len() > 0 {
            assert(retry[0] == retry[0]);
        }
        if case_fact(case, x) && x is RetryAfterSecs {
            assert(retry[0] == x);
        }
    }
    if case_fact(case, x) {
        match x {
            EvidenceV::DnsResolutionFailed { .. } => assert(dns_evidence(c)[0] == x),
            EvidenceV::TlsHandshakeFailed { .. } => assert(tls_evidence(c)[0] == x),
            EvidenceV::ConnectionTimeout { .. } => assert(timeout_evidence(case)[0] == x),
            EvidenceV::ClockDriftSecs { observed, .. } => {
                let skew = c.client_clock_skew_secs->0;
                assert(abs(skew as int) <= i64::MAX) by {
                    assert(observed as int == abs(skew as int));
                }
                assert(drift_evidence(c)[0] == x);
            },
            EvidenceV::BodyMutatedBeforeVerification => assert(body_evidence(c)[0] == x),
            EvidenceV::HeaderPresent { .. } => assert(auth_evidence(case)[0] == x),
            EvidenceV::HeaderMissing { .. } => assert(auth_evidence(case)[0] == x),
            _ => {},
        }
    }
    if dns_evidence(c).len() > 0 {
        assert(dns_evidence(c)[0] == dns_evidence(c)[0]);
    }
    if tls_evidence(c).len() > 0 {
        assert(tls_evidence(c)[0] == tls_evidence(c)[0]);
    }
    if timeout_evidence(case).len() > 0 {
        assert(timeout_evidence(case)[0] == timeout_evidence(case)[0]);
    }
    if drift_evidence(c).len() > 0 {
        assert(drift_evidence(c)[0] == drift_evidence(c)[0]);
    }
    if body_evidence(c).len() > 0 {
        assert(body_evidence(c)[0] == body_evidence(c)[0]);
    }
    assert(auth_evidence(case)[0] == auth_evidence(case)[0]);
}

/// Every fact the case itself reports ([`case_fact`]) is in what
/// `collect_evidence` returns, whatever the log holds: a TLS failure, for
/// instance, carries the context's peer as its peer and the context's
/// failure reason as its reason.
pub proof fn lemma_collected_holds_case_facts(case: Case, log: Seq<char>, x: EvidenceV)
    requires
        case_fact(case, x),
    ensures
        collected(case, log).contains(x),
{
    lemma_case_evidence_facts(case, x);
    let ce = case_evidence(case);
    lemma_merge_items_keeps(ce, parsed_log(log));
    let r = collected(case, log);
    let k = choose|k: int| 0 <= k < ce.len() && ce[k] == x;
    assert(r.take(ce.len() as int)[k] == x);
    assert(r[k] == x);
}

/// Every item `collect_evidence` returns is a fact the case itself reports
/// or an item of the log's `parse_log` result.
pub proof fn lemma_collected_items_are_facts(case: Case, log: Seq<char>, x: EvidenceV)
    requires
        context_drift_ok(case.context),
        collected(case, log).contains(x),
    ensures
        case_fact(case, x) || parsed_log(log).contains(x),
{
    lemma_case_evidence_facts(case, x);
    lemma_collected_covers_parsed_log(case, log);
}

/// `a` and `b` report a failure for the same DNS host, the same TLS peer,
/// or a validation error on the same field.
pub open spec fn report_same_subject(a: EvidenceV, b: EvidenceV) -> bool {
    ||| (a matches EvidenceV::DnsResolutionFailed { host: h1, .. } && b matches EvidenceV::DnsResolutionFailed { host: h2, .. } && h1 == h2)
    ||| (a matches EvidenceV::TlsHandshakeFailed { peer: p1, .. } && b matches EvidenceV::TlsHandshakeFailed { peer: p2, .. } && p1 == p2)
    ||| (a matches EvidenceV::JsonValidationError { field: f1, .. } && b matches EvidenceV::JsonValidationError { field: f2, .. } && f1 == f2)
}

/// What `collect_evidence` returns never holds two equal items, two DNS
/// failures for one host, two TLS failures for one peer, or two validation
/// errors for one field.
pub proof fn lemma_collected_one_line_per_subject(case: Case, log: Seq<char>)
    ensures
        forall|i: int, j: int|
            0 <= i < j < collected(case, log).len() ==> #[trigger] collected(case, log)[i]
                != #[trigger] collected(case, log)[j] && !report_same_subject(
                collected(case, log)[i],
                collected(case, log)[j],
            ),
{
    lemma_collected_distinct_facts(case, log);
    let c = collected(case, log);
    assert forall|i: int, j: int| 0 <= i < j < c.len() implies #[trigger] c[i] != #[trigger] c[j]
        && !report_same_subject(c[i], c[j]) by {
        assert(!same_key(c[i], c[j]));
    }
}

/// `needle` occurs in `line` at index `k`, at the start of the line or
/// right after a whitespace character.
pub open spec fn occurs_on_boundary(line: Seq<char>, needle: Seq<char>, k: int) -> bool {
    occurs_at(line, needle, k) && (k == 0 || is_ws(line[k - 1]))
}

proof fn lemma_key_start_first(line: Seq<char>, needle: Seq<char>, i: int)
    requires
        0 <= i,
    ensures
        key_start(line, needle, i) matches Some(st) ==> i <= st - needle.len()
            && occurs_on_boundary(line, needle, st - needle.len()) && forall|k: int|
            i <= k < st - needle.len() ==> !#[trigger] occurs_on_boundary(line, needle, k),
        key_start(line, needle, i) is None ==> forall|k: int|
            i <= k ==> !#[trigger] occurs_on_boundary(line, needle, k),
    decreases line.len() + 1 - i,
{
    if i + needle.len() <= line.len() && !occurs_on_boundary(line, needle, i) {
        lemma_key_start_first(line, needle, i + 1);
    }
}

proof fn lemma_index_of_char_first(s: Seq<char>, c: char, i: int)
    requires
        0 <= i,
    ensures
        index_of_char(s, c, i) matches Some(e) ==> i <= e < s.len() && s[e] == c && forall|j: int|
            i <= j < e ==> #[trigger] s[j] != c,
        index_of_char(s, c, i) is None ==> forall|j: int| i <= j < s.len() ==> #[trigger] s[j] != c,
    decreases s.len() - i,
{
    if i < s.len() && s[i] != c {
        lemma_index_of_char_first(s, c, i + 1);
    }
}

proof fn lemma_first_ws_first(s: Seq<char>, i: int)
    requires
        0 <= i <= s.len(),
    ensures
        i <= first_ws(s, i) <= s.len(),
        first_ws(s, i) < s.len() ==> is_ws(s[first_ws(s, i)]),
        forall|j: int| i <= j < first_ws(s, i) ==> !is_ws(#[trigger] s[j]),
    decreases s.len() - i,
{
    if i < s.len() && !is_ws(s[i]) {
        lemma_first_ws_first(s, i + 1);
    }
}

/// The value `v` stands right after index `st` of `line`: either a
/// double-quoted string (without its quotes, holding no quote), or a run of
/// non-whitespace characters, not starting with a quote, that ends at
/// whitespace or at the end of the line.
pub open spec fn value_at(line: Seq<char>, st: int, v: Seq<char>) -> bool {
    ||| (st < line.len() && line[st] == '"' && st + 1 + v.len() < line.len() && line.subrange(
        st + 1,
        st + 1 + v.len(),
    ) == v && line[st + 1 + v.len()] == '"' && !v.contains('"'))
    ||| (!(st < line.len() && line[st] == '"') && st + v.len() <= line.len() && line.subrange(
        st,
        st + v.len(),
    ) == v && (forall|j: int| 0 <= j < v.len() ==> !is_ws(#[trigger] v[j])) && (st + v.len()
        == line.len() || is_ws(line[st + v.len()])))
}

/// `key=value` extraction finds the value after the first occurrence of
/// `key=` that starts the line or follows whitespace (so `prefixed_key=`
/// never matches `key`); it finds nothing when there is no such occurrence,
/// or when the value there opens a quote that is never closed.
pub proof fn lemma_kv_value_located(line: Seq<char>, key: Seq<char>)
    ensures
        kv_value(line, key) matches Some(v) ==> exists|k: int|
            0 <= k && #[trigger] occurs_on_boundary(line, key.push('='), k) && (forall|j: int|
                0 <= j < k ==> !#[trigger] occurs_on_boundary(line, key.push('='), j)) && value_at(
                line,
                k + key.len() + 1,
                v,
            ),
        kv_value(line, key) is None ==> (forall|k: int|
            0 <= k ==> !#[trigger] occurs_on_boundary(line, key.push('='), k)) || exists|k: int|
            0 <= k && #[trigger] occurs_on_boundary(line, key.push('='), k) && (forall|j: int|
                0 <= j < k ==> !#[trigger] occurs_on_boundary(line, key.push('='), j)) && k
                + key.len() + 1 < line.len() && line[k + key.len() + 1] == '"' && forall|j: int|
                k + key.len() + 2 <= j < line.len() ==> #[trigger] line[j] != '"',
{
    let needle = key.push('=');
    lemma_key_start_first(line, needle, 0);
    lemma_key_start_bounds(line, needle, 0);
    if let Some(st) = key_start(line, needle, 0) {
        let k = st - needle.len();
        assert(occurs_on_boundary(line, needle, k));
        if st < line.len() && line[st] == '"' {
            lemma_index_of_char_first(line, '"', st + 1);
            if let Some(e) = index_of_char(line, '"', st + 1) {
                let v = line.subrange(st + 1, e);
                assert(v.len() == e - st - 1);
                assert(!v.contains('"')) by {
                    if v.contains('"') {
                        let j = choose|j: int| 0 <= j < v.len() && v[j] == '"';
                        assert(line[st + 1 + j] == '"');
                    }
                }
                assert(value_at(line, k + key.len() + 1, v));
            }
        } else {
            lemma_first_ws_first(line, st);
            let e = first_ws(line, st);
            let v = line.subrange(st, e);
            assert forall|j: int| 0 <= j < v.len() implies !is_ws(#[trigger] v[j]) by {
                assert(v[j] == line[st + j]);
            }
            assert(value_at(line, k + key.len() + 1, v));
        }
    }
}

/// `ls` joined with a line break between consecutive pieces.
pub open spec fn joined_lines(ls: Seq<Seq<char>>) -> Seq<char>
    decreases ls.len(),
{
    if ls.len() == 0 {
        seq![]
    } else if ls.len() == 1 {
        ls[0]
    } else {
        joined_lines(ls.drop_last()) + seq!['\n'] + ls.last()
    }
}

proof fn lemma_split_lines_pieces(t: Seq<char>)
    ensures
        joined_lines(split_lines(t).0.push(split_lines(t).1)) == t,
        forall|i: int| 0 <= i < split_lines(t).0.len() ==> !(#[trigger] split_lines(t).0[i]).contains('\n'),
        !split_lines(t).1.contains('\n'),
    decreases t.len(),
{
    if t.len() > 0 {
        let u = t.drop_last();
        lemma_split_lines_pieces(u);
        let (d, c) = split_lines(u);
        let ch = t.last();
        if ch == '\n' {
            let nd = d.push(c);
            assert(nd.push(seq![]).drop_last() =~= nd);
            assert(joined_lines(nd.push(seq![])) =~= joined_lines(nd) + seq!['\n'] + seq![]);
            assert(u.push('\n') =~= t);
            assert(joined_lines(nd) + seq!['\n'] + Seq::<char>::empty() =~= t);
            assert forall|i: int| 0 <= i < nd.len() implies !(#[trigger] nd[i]).contains('\n') by {
                if i < d.len() {
                    assert(nd[i] == d[i]);
                }
            }
            assert(!Seq::<char>::empty().contains('\n'));
        } else {
            let nc = c.push(ch);
            assert(!nc.contains('\n')) by {
                if nc.contains('\n') {
                    let k = choose|k: int| 0 <= k < nc.len() && nc[k] == '\n';
                    assert(c[k] == '\n');
                }
            }
            if d.len() == 0 {
                assert(d.push(nc) =~= seq![nc]);
                assert(d.push(c) =~= seq![c]);
                assert(joined_lines(seq![nc]) == nc);
                assert(joined_lines(seq![c]) == c);
                assert(nc =~= t);
            } else {
                assert(d.push(nc).drop_last() =~= d);
                assert(d.push(c).drop_last() =~= d);
                assert(joined_lines(d) + seq!['\n'] + nc =~= (joined_lines(d) + seq!['\n'] + c).push(
                    ch,
                ));
            }
        }
    }
}

/// The lines `parse_log` scans are the pieces of the log between line
/// breaks: none holds a line break, and joined back with line breaks they
/// give the log.
pub proof fn lemma_log_lines_are_pieces(t: Seq<char>)
    ensures
        log_lines(t).len() > 0,
        joined_lines(log_lines(t)) == t,
        forall|i: int| 0 <= i < log_lines(t).len() ==> !(#[trigger] log_lines(t)[i]).contains('\n'),
{
    lemma_split_lines_pieces(t);
    let (d, c) = split_lines(t);
    assert forall|i: int| 0 <= i < log_lines(t).len() implies !(#[trigger] log_lines(t)[i]).contains('\n') by {
        if i < d.len() {
            assert(log_lines(t)[i] == d[i]);
        }
    }
}

/// A response body yields a validation error exactly when serde_json finds
/// the string `validation_failed` at `error.code`; the error then carries
/// the string at `error.field`, if any, and the string at `error.message`,
/// or `validation failed` when there is none.
pub proof fn lemma_body_validation_shape(body: Seq<char>)
    ensures
        body_validation(body) is Some <==> json_member_str(body, "error"@, "code"@) == Some(
            "validation_failed"@,
        ),
        body_validation(body) is Some ==> body_validation(body) == Some(
            EvidenceV::JsonValidationError {
                field: json_member_str(body, "error"@, "field"@),
                message: match json_member_str(body, "error"@, "message"@) {
                    Some(m) => m,
                    None => "validation failed"@,
                },
            },
        ),
{
}

} // verus!
