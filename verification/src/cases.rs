//! Case fixture model, fixture paths and the loader's checks.
//!
//! A [`Case`] is a sanitized HTTP transaction plus environmental
//! [`Context`]. Reading and deserializing a fixture file is I/O and is done
//! by the binary; this module holds the model, the rule that only
//! [`KNOWN_CASES`] may be loaded, the path arithmetic, the check that a
//! loaded fixture declares the name it was loaded as, and the mapping from
//! loader errors to exit codes.
//!
//! Paths are held as strings. Joining follows `Path::join` on Unix: an
//! absolute component replaces the base, otherwise a `/` separator is
//! inserted unless the base is empty or already ends in one.

use vstd::prelude::*;
use crate::text::{chars_of, owned, push_char, str_equal};

verus! {

/// Every case the binary knows how to load.
pub const KNOWN_CASES: [&'static str; 8] = [
    "auth_missing",
    "bad_payload",
    "rate_limit",
    "webhook_signature",
    "timeout",
    "dns_config",
    "tls_failure",
    "injection_attempt",
];

/// The names in [`KNOWN_CASES`], as character sequences.
pub open spec fn known_case_names() -> Seq<Seq<char>> {
    seq![
        "auth_missing"@,
        "bad_payload"@,
        "rate_limit"@,
        "webhook_signature"@,
        "timeout"@,
        "dns_config"@,
        "tls_failure"@,
        "injection_attempt"@,
    ]
}

/// `name` is one of the known cases.
pub open spec fn is_known_case(name: Seq<char>) -> bool {
    known_case_names().contains(name)
}

/// Errors the case loader can produce.
///
/// `Io` and `Parse` carry the fixture path and the underlying error's
/// message; they are produced where the file is read and deserialized.
#[derive(Debug)]
pub enum CaseError {
    Unknown(String),
    Io(String, String),
    Parse(String, String),
    NameMismatch { path: String, expected: String, found: String },
}

/// One sanitized HTTP transaction, plus environmental context, plus a
/// pointer to the log file that recorded it.
#[derive(Debug, Clone)]
pub struct Case {
    /// Stable case identifier; must match the JSON file's basename.
    pub name: String,
    /// One-line human description of what this fixture exercises.
    pub description: String,
    pub request: Request,
    /// Absent for connection-layer failures (DNS, TLS, timeout).
    pub response: Option<Response>,
    pub context: Context,
    /// Path to the log file relative to the project root.
    pub log_path: Option<String>,
}

/// Sanitized HTTP request as authored in the fixture file.
///
/// `headers` holds the header name/value pairs; a lookup by name takes the
/// first pair with that name.
#[derive(Debug, Clone)]
pub struct Request {
    pub method: String,
    pub url: String,
    pub headers: Vec<(String, String)>,
    pub body_summary: String,
    pub client_unix_ts: Option<i64>,
    /// Client-side timeout budget.
    pub timeout_ms: Option<u64>,
}

/// Sanitized HTTP response. `headers` is held as in [`Request`].
#[derive(Debug, Clone)]
pub struct Response {
    pub status: u16,
    pub headers: Vec<(String, String)>,
    pub body_summary: String,
    pub server_unix_ts: Option<i64>,
    pub elapsed_ms: Option<u64>,
}

/// Environmental observations from the caller's own network stack.
/// Unset fields mean "not observed".
#[derive(Debug, Clone)]
pub struct Context {
    pub dns_resolved: Option<bool>,
    pub dns_error: Option<String>,
    pub dns_host: Option<String>,
    pub tls_handshake_ms: Option<u64>,
    pub tls_handshake_failed: Option<bool>,
    pub tls_failure_reason: Option<String>,
    pub tls_peer: Option<String>,
    pub client_clock_skew_secs: Option<i64>,
    pub signing_required: Option<bool>,
    pub signature_tolerance_secs: Option<u64>,
    pub body_mutated_before_verification: Option<bool>,
    pub elapsed_ms_before_abort: Option<u64>,
    pub connection_error: Option<String>,
}

impl Default for Context {
    fn default() -> (c: Self)
        ensures
            c.dns_resolved is None,
            c.dns_error is None,
            c.dns_host is None,
            c.tls_handshake_ms is None,
            c.tls_handshake_failed is None,
            c.tls_failure_reason is None,
            c.tls_peer is None,
            c.client_clock_skew_secs is None,
            c.signing_required is None,
            c.signature_tolerance_secs is None,
            c.body_mutated_before_verification is None,
            c.elapsed_ms_before_abort is None,
            c.connection_error is None,
    {
        Context {
            dns_resolved: None,
            dns_error: None,
            dns_host: None,
            tls_handshake_ms: None,
            tls_handshake_failed: None,
            tls_failure_reason: None,
            tls_peer: None,
            client_clock_skew_secs: None,
            signing_required: None,
            signature_tolerance_secs: None,
            body_mutated_before_verification: None,
            elapsed_ms_before_abort: None,
            connection_error: None,
        }
    }
}

/// `Path::join` on Unix for a base and one component.
pub open spec fn path_join(base: Seq<char>, part: Seq<char>) -> Seq<char> {
    if part.len() > 0 && part[0] == '/' {
        part
    } else if base.len() == 0 || base.last() == '/' {
        base + part
    } else {
        base + seq!['/'] + part
    }
}

/// Joins a path component onto a base path.
pub fn join_path(base: &str, part: &str) -> (r: String)
    ensures
        r@ == path_join(base@, part@),
{
    let p = chars_of(part);
    if p.len() > 0 && p[0] == '/' {
        return owned(part);
    }
    let b = chars_of(base);
    let mut r = owned(base);
    if !(b.len() == 0 || b[b.len() - 1] == '/') {
        push_char(&mut r, '/');
    }
    r.append(part);
    r
}

/// Whether `name` is one of [`KNOWN_CASES`].
pub fn is_known(name: &str) -> (r: bool)
    ensures
        r == is_known_case(name@),
{
    let mut i: usize = 0;
    let ghost names = known_case_names();
    proof {
        reveal_strlit("auth_missing");
        reveal_strlit("bad_payload");
        reveal_strlit("rate_limit");
        reveal_strlit("webhook_signature");
        reveal_strlit("timeout");
        reveal_strlit("dns_config");
        reveal_strlit("tls_failure");
        reveal_strlit("injection_attempt");
    }
    while i < 8
        invariant
            i <= 8,
            names == known_case_names(),
            forall|k: int| 0 <= k < i ==> names[k] != name@,
        decreases 8 - i,
    {
        let candidate: &str = KNOWN_CASES[i];
        assert(candidate@ == names[i as int]);
        if str_equal(candidate, name) {
            return true;
        }
        i = i + 1;
    }
    false
}

/// The on-disk path of a fixture: `fixtures_dir/cases/<name>.json`.
pub open spec fn fixture_path(fixtures_dir: Seq<char>, name: Seq<char>) -> Seq<char> {
    path_join(path_join(fixtures_dir, "cases"@), name + ".json"@)
}

/// Look up the on-disk path for a known case name. Fails with `Unknown`
/// exactly when the name is not in [`KNOWN_CASES`].
pub fn case_fixture_path(fixtures_dir: &str, name: &str) -> (r: Result<String, CaseError>)
    ensures
        is_known_case(name@) ==> (r matches Ok(p) && p@ == fixture_path(fixtures_dir@, name@)),
        !is_known_case(name@) ==> (r matches Err(CaseError::Unknown(n)) && n@ == name@),
{
    if !is_known(name) {
        return Err(CaseError::Unknown(owned(name)));
    }
    let dir = join_path(fixtures_dir, "cases");
    let mut file = owned(name);
    file.append(".json");
    Ok(join_path(dir.as_str(), file.as_str()))
}

/// Resolve the log file path for a case relative to the project root.
pub fn log_path_for(case: &Case, project_root: &str) -> (r: Option<String>)
    ensures
        match case.log_path {
            Some(p) => r matches Some(q) && q@ == path_join(project_root@, p@),
            None => r is None,
        },
{
    match &case.log_path {
        Some(p) => Some(join_path(project_root, p.as_str())),
        None => None,
    }
}

/// The last step of loading a case: a fixture read from `path` for the
/// requested `name` is accepted only if it declares that same name.
pub fn check_loaded_name(case: Case, path: String, name: &str) -> (r: Result<Case, CaseError>)
    ensures
        case.name@ == name@ ==> r == Ok::<Case, CaseError>(case),
        case.name@ != name@ ==> (r matches Err(CaseError::NameMismatch { path: p, expected, found })
            && p == path && expected@ == name@ && found == case.name),
{
    if !str_equal(case.name.as_str(), name) {
        let found = case.name;
        return Err(CaseError::NameMismatch { path, expected: owned(name), found });
    }
    Ok(case)
}

/// Exit code for a failed command: 2 when the case name is unknown, 3 when
/// a fixture file is broken, 1 when the failure is not a loader error.
pub fn exit_code_for(err: Option<&CaseError>) -> (code: u8)
    ensures
        code == match err {
            Some(CaseError::Unknown(_)) => 2u8,
            Some(_) => 3u8,
            None => 1u8,
        },
{
    match err {
        Some(CaseError::Unknown(_)) => 2,
        Some(CaseError::Io(_, _)) | Some(CaseError::Parse(_, _)) | Some(
            CaseError::NameMismatch { .. },
        ) => 3,
        None => 1,
    }
}

/// A known case's fixture lies in the `cases` directory under the
/// fixtures directory, in the file named after the case with the `.json`
/// extension: `<dir>/cases/<name>.json` (no second `/` when `dir` already
/// ends in one, and just `cases/<name>.json` for an empty `dir`).
pub proof fn lemma_fixture_path_layout(dir: Seq<char>, name: Seq<char>)
    requires
        name.len() == 0 || name[0] != '/',
    ensures
        dir.len() > 0 && dir.last() != '/' ==> fixture_path(dir, name) == dir
            + "/cases/"@ + name + ".json"@,
        dir.len() > 0 && dir.last() == '/' ==> fixture_path(dir, name) == dir + "cases/"@ + name
            + ".json"@,
        dir.len() == 0 ==> fixture_path(dir, name) == "cases/"@ + name + ".json"@,
{
    reveal_strlit("cases");
    reveal_strlit("/cases/");
    reveal_strlit("cases/");
    let part = name + ".json"@;
    if name.len() > 0 {
        assert(part[0] == name[0]);
    } else {
        reveal_strlit(".json");
        assert(part[0] == '.');
    }
    let c = path_join(dir, "cases"@);
    assert(c.len() > 0 && c.last() == 's');
    if dir.len() > 0 && dir.last() != '/' {
        assert(c + seq!['/'] + part =~= dir + "/cases/"@ + name + ".json"@);
    }
    if dir.len() > 0 && dir.last() == '/' {
        assert(c + seq!['/'] + part =~= dir + "cases/"@ + name + ".json"@);
    }
    if dir.len() == 0 {
        assert(c + seq!['/'] + part =~= "cases/"@ + name + ".json"@);
    }
}

} // verus!
