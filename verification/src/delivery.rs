//! Delivery-client decisions: joining an observer endpoint with a
//! payload path, resolving it through the URL parser, and the
//! retry-forever acknowledgement policy — success is strictly a 200
//! status, and anything else is retried after a fixed backoff.

use vstd::prelude::*;
use vstd::string::StrSliceExecFns;
use vstd::string::StringExecFns;

use crate::errors::IoErrorKind;

verus! {

/// Fixed per-attempt timeout and retry interval, in milliseconds.
pub const DELIVERY_BACKOFF_MS: u64 = 1000;

/// The URL string a payload for `path` is posted to: the scheme, the
/// observer's base endpoint, and the path with a leading slash
/// normalized in.
pub open spec fn joined_url(endpoint: Seq<char>, path: Seq<char>) -> Seq<char> {
    if path.len() > 0 && path[0] == '/' {
        "http://"@ + endpoint + path
    } else {
        "http://"@ + endpoint + "/"@ + path
    }
}

/// Join an observer's base endpoint with a payload path into the URL
/// string a delivery posts to.
pub fn url_join(endpoint: &str, path: &str) -> (r: String)
    ensures
        r@ == joined_url(endpoint@, path@),
{
    let mut url: String = "http://".to_owned();
    url.append(endpoint);
    if path.unicode_len() > 0 && path.get_char(0) == '/' {
        url.append(path);
    } else {
        url.append("/");
        url.append(path);
    }
    url
}

/// Whether url::Url::parse accepts the string as an absolute URL.
pub uninterp spec fn url_parses(s: Seq<char>) -> bool;

/// The host url::Url::host_str reads out of a parsed URL string, when
/// it names one.
pub uninterp spec fn url_host_of(s: Seq<char>) -> Option<Seq<char>>;

/// The port url::Url::port_or_known_default reads out of a parsed URL
/// string: the explicit one, else the scheme's default when known.
pub uninterp spec fn url_port_of(s: Seq<char>) -> Option<u16>;

/// The path component url::Url::path reads out of a parsed URL string.
pub uninterp spec fn url_path_of(s: Seq<char>) -> Seq<char>;

/// Relies on url::Url::parse, whose result depends on the string
/// alone, and on Url::host_str, Url::port_or_known_default and
/// Url::path to project that result into plain values.
#[verifier::external_body]
fn parse_endpoint_url(s: &str) -> (r: Option<(Option<String>, Option<u16>, String)>)
    ensures
        r is Some <==> url_parses(s@),
        r is Some ==> {
            &&& (r->Some_0.0 is Some <==> url_host_of(s@) is Some)
            &&& (r->Some_0.0 is Some ==> r->Some_0.0->Some_0@ == url_host_of(s@)->Some_0)
            &&& r->Some_0.1 == url_port_of(s@)
            &&& r->Some_0.2@ == url_path_of(s@)
        },
{
    match url::Url::parse(s) {
        Err(_) => None,
        Ok(u) => Some(
            (u.host_str().map(|h| h.to_string()), u.port_or_known_default(), u.path().to_string()),
        ),
    }
}

/// Where one delivery attempt connects, and the path it posts to.
pub struct DeliveryTarget {
    pub host: String,
    pub port: u16,
    pub path: String,
}

/// Resolve an observer endpoint and a payload path into a delivery
/// target: parse the joined URL string and read its host, its port (80
/// when the parser knows none) and its path.  `None` exactly when the
/// joined string is no parseable URL or names no host; that is a
/// configuration fault, and the caller decides what to do with it.
pub fn resolve_endpoint(endpoint: &str, path: &str) -> (r: Option<DeliveryTarget>)
    ensures
        ({
            let joined = joined_url(endpoint@, path@);
            &&& (r is Some <==> (url_parses(joined) && url_host_of(joined) is Some))
            &&& r is Some ==> {
                &&& r->Some_0.host@ == url_host_of(joined)->Some_0
                &&& r->Some_0.port == (match url_port_of(joined) {
                    Some(p) => p,
                    None => 80u16,
                })
                &&& r->Some_0.path@ == url_path_of(joined)
            }
        }),
{
    let url_string = url_join(endpoint, path);
    let (host_opt, port_opt, parsed_path) = match parse_endpoint_url(url_string.as_str()) {
        None => {
            return None;
        },
        Some(parts) => parts,
    };
    let host = match host_opt {
        None => {
            return None;
        },
        Some(h) => h,
    };
    let port = match port_opt {
        None => 80,
        Some(p) => p,
    };
    Some(DeliveryTarget { host, port, path: parsed_path })
}

/// What one delivery attempt came back with: a status code, or a
/// transport failure before any status arrived.
#[derive(Clone, Copy, Debug, PartialEq, Eq, Structural)]
pub enum AttemptOutcome {
    Status(u16),
    TransportFailure(IoErrorKind),
}

/// Whether an attempt acknowledged the delivery: strictly a 200
/// status; any other status and any transport failure is retried.
pub fn attempt_succeeded(outcome: &AttemptOutcome) -> (r: bool)
    ensures
        r == (*outcome == AttemptOutcome::Status(200u16)),
{
    match outcome {
        AttemptOutcome::Status(code) => *code == 200,
        AttemptOutcome::TransportFailure(_) => false,
    }
}

/// The retry-forever delivery policy, replayed over a known outcome
/// sequence: when the endpoint would answer the i-th request with
/// `outcomes[i]`, the delivery sends exactly one request per failed
/// attempt plus the one that succeeds, and does not return at all
/// (`None`) while only failures come back.
pub fn attempts_until_success(outcomes: &Vec<AttemptOutcome>) -> (r: Option<usize>)
    ensures
        r is Some ==> 1 <= r->Some_0 <= outcomes@.len() && outcomes@[r->Some_0 - 1]
            == AttemptOutcome::Status(200u16) && (forall|j: int|
            0 <= j < r->Some_0 - 1 ==> outcomes@[j] != AttemptOutcome::Status(200u16)),
        r is None <==> (forall|j: int|
            0 <= j < outcomes@.len() ==> outcomes@[j] != AttemptOutcome::Status(200u16)),
{
    let mut i: usize = 0;
    while i < outcomes.len()
        invariant
            i <= outcomes@.len(),
            forall|j: int| 0 <= j < i ==> outcomes@[j] != AttemptOutcome::Status(200u16),
        decreases outcomes.len() - i,
    {
        if attempt_succeeded(&outcomes[i]) {
            return Some(i + 1);
        }
        i = i + 1;
    }
    None
}

} // verus!
