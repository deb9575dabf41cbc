//! HTTP(S) probing: target validation, request headers, and the
//! classification of what one address answered.

use vstd::prelude::*;

use crate::checkengine::{CheckResult, CheckResultElement, CheckStatus, CheckTimeSpan, ProbeAddr};
use crate::config::{Auth, CanaryTarget};
use crate::text::{find_first, find_last, first_index, join_text, last_index, decimal, decimal_string};

verus! {

/// The name under which HTTP results are reported.
pub const CHECK_NAME: &'static str = "http";

/// How an HTTP probe judges an answer.
#[derive(Debug, Clone, Copy)]
pub struct HttpCheck {
    /// The largest acceptable latency, in nanoseconds.
    pub latency_requirement: u64,
    /// Whether a 4xx answer may still count as alive.
    pub allow_client_error: bool,
}

/// What a probe is sent to: the URL and the extra request headers.
#[derive(Debug, Clone)]
pub struct HttpTarget {
    pub url: String,
    pub extra_headers: Vec<(String, String)>,
}

/// A validated target: the host to resolve, the port to connect to, and
/// whether the connection uses TLS.
pub struct Endpoint {
    pub host: String,
    pub port: u16,
    pub tls: bool,
}

/// The pieces of a URL that validation reads: scheme, authority (as text)
/// and explicit port.
pub struct UriParts {
    pub scheme: Option<String>,
    pub authority: Option<String>,
    pub port: Option<u16>,
}

pub type UriPartsView = (Option<Seq<char>>, Option<Seq<char>>, Option<u16>);

pub open spec fn opt_view(o: Option<String>) -> Option<Seq<char>> {
    match o {
        Some(s) => Some(s@),
        None => None,
    }
}

pub open spec fn parts_view(p: Option<UriParts>) -> Option<UriPartsView> {
    match p {
        Some(u) => Some((opt_view(u.scheme), opt_view(u.authority), u.port)),
        None => None,
    }
}

/// What hyper's URI parser makes of a text: `None` when it rejects it,
/// else the scheme, authority and explicit port it finds.
pub uninterp spec fn uri_parts_of(url: Seq<char>) -> Option<UriPartsView>;

/// Relies on `str::parse::<hyper::Uri>` and on `Uri::scheme_str`,
/// `Uri::authority_part` with `Authority::as_str`, and `Uri::port_u16` of the
/// `http` crate that hyper re-exports: the pieces depend on the text alone.
#[verifier::external_body]
fn split_uri(url: &str) -> (r: Option<UriParts>)
    ensures
        parts_view(r) == uri_parts_of(url@),
{
    match url.parse::<hyper::Uri>() {
        Ok(u) => Some(UriParts {
            scheme: u.scheme_str().map(String::from),
            authority: u.authority_part().map(|a| a.as_str().to_string()),
            port: u.port_u16(),
        }),
        Err(_) => None,
    }
}

pub open spec fn missing_value_text(url: Seq<char>, field: Seq<char>) -> Seq<char> {
    "invalid target: URL "@ + url + " is missing a "@ + field
}

pub open spec fn invalid_value_text(url: Seq<char>, field: Seq<char>, value: Seq<char>) -> Seq<char> {
    "invalid target: URL "@ + url + " has invalid "@ + field + ": "@ + value
}

pub open spec fn unparsable_text(url: Seq<char>) -> Seq<char> {
    "invalid target: URL "@ + url + " is not a valid URI"@
}

/// The message for a URL that lacks a required part.
pub fn invalid_target_missing_value(url: &str, field: &str) -> (r: String)
    ensures
        r@ == missing_value_text(url@, field@),
{
    let mut m = join_text("invalid target: URL ", url);
    m.append(" is missing a ");
    m.append(field);
    m
}

/// The message for a URL with a part that has an unsupported value.
pub fn invalid_target_invalid_value(url: &str, field: &str, value: &str) -> (r: String)
    ensures
        r@ == invalid_value_text(url@, field@, value@),
{
    let mut m = join_text("invalid target: URL ", url);
    m.append(" has invalid ");
    m.append(field);
    m.append(": ");
    m.append(value);
    m
}

/// The host an authority names: the text after its last `@`; of that, a
/// bracketed address up to its `]`, or else everything before the first
/// `:`. `None` when a `[` is not closed.
pub open spec fn authority_host(a: Seq<char>) -> Option<Seq<char>> {
    let hp = a.subrange(last_index(a, '@') + 1, a.len() as int);
    if hp.len() > 0 && hp[0] == '[' {
        let i = first_index(hp, ']');
        if i < 0 {
            None
        } else {
            Some(hp.subrange(0, i + 1))
        }
    } else {
        let i = first_index(hp, ':');
        if i < 0 {
            Some(hp)
        } else {
            Some(hp.subrange(0, i))
        }
    }
}

/// Finds the host an authority names.
pub fn host_of_authority(authority: &str) -> (r: Option<String>)
    ensures
        opt_view(r) == authority_host(authority@),
{
    let n = authority.unicode_len();
    let start = match find_last(authority, '@') {
        Some(i) => i + 1,
        None => 0,
    };
    let hp = authority.substring_char(start, n);
    if start < n && authority.get_char(start) == '[' {
        assert(hp@[0] == authority@[start as int]);
        match find_first(hp, ']') {
            Some(i) => Some(String::from_str(hp.substring_char(0, i + 1))),
            None => None,
        }
    } else {
        match find_first(hp, ':') {
            Some(i) => Some(String::from_str(hp.substring_char(0, i))),
            None => Some(String::from_str(hp)),
        }
    }
}

/// The endpoint a URL names, given what the parser found in it: the scheme
/// must be `http` (port 80) or `https` (port 443, TLS), an authority naming
/// a host must be present, and an explicit port overrides the scheme's.
pub open spec fn endpoint_of(url: Seq<char>, parts: Option<UriPartsView>) -> Result<
    (Seq<char>, u16, bool),
    Seq<char>,
> {
    match parts {
        None => Err(unparsable_text(url)),
        Some((scheme, authority, port)) => match scheme {
            None => Err(missing_value_text(url, "scheme"@)),
            Some(s) => match authority {
                None => Err(missing_value_text(url, "authority"@)),
                Some(a) => if s != "http"@ && s != "https"@ {
                    Err(invalid_value_text(url, "scheme"@, s))
                } else {
                    match authority_host(a) {
                        None => Err(invalid_value_text(url, "authority"@, a)),
                        Some(h) => if s == "http"@ {
                            Ok((h, port.unwrap_or(80u16), false))
                        } else {
                            Ok((h, port.unwrap_or(443u16), true))
                        },
                    }
                },
            },
        },
    }
}

pub open spec fn endpoint_view(r: Result<Endpoint, String>) -> Result<(Seq<char>, u16, bool), Seq<char>> {
    match r {
        Ok(e) => Ok((e.host@, e.port, e.tls)),
        Err(m) => Err(m@),
    }
}

/// Validates a URL from the pieces the parser found in it.
pub fn endpoint_from_parts(url: &str, parts: Option<UriParts>) -> (r: Result<Endpoint, String>)
    ensures
        endpoint_view(r) == endpoint_of(url@, parts_view(parts)),
{
    match parts {
        None => {
            let mut m = join_text("invalid target: URL ", url);
            m.append(" is not a valid URI");
            Err(m)
        },
        Some(p) => {
            let scheme = match p.scheme {
                Some(s) => s,
                None => return Err(invalid_target_missing_value(url, "scheme")),
            };
            let authority = match p.authority {
                Some(a) => a,
                None => return Err(invalid_target_missing_value(url, "authority")),
            };
            let http = String::from_str("http");
            let https = String::from_str("https");
            let (default_port, tls) = if scheme == http {
                (80u16, false)
            } else if scheme == https {
                (443u16, true)
            } else {
                return Err(invalid_target_invalid_value(url, "scheme", scheme.as_str()));
            };
            let host = match host_of_authority(authority.as_str()) {
                Some(h) => h,
                None => {
                    return Err(
                        invalid_target_invalid_value(url, "authority", authority.as_str()),
                    )
                },
            };
            let port = match p.port {
                Some(n) => n,
                None => default_port,
            };
            Ok(Endpoint { host, port, tls })
        },
    }
}

/// Validates a target URL and finds the endpoint it names.
pub fn target_endpoint(url: &str) -> (r: Result<Endpoint, String>)
    ensures
        endpoint_view(r) == endpoint_of(url@, uri_parts_of(url@)),
{
    endpoint_from_parts(url, split_uri(url))
}

/// What `user[:password]` a basic-auth header carries.
pub open spec fn credential_text(auth: Auth) -> Seq<char> {
    match auth.password {
        Some(p) => auth.username@ + seq![':'] + p@,
        None => auth.username@,
    }
}

/// The base64 encoding (standard alphabet, padded) of a text's UTF-8 bytes.
pub uninterp spec fn base64_of(text: Seq<char>) -> Seq<char>;

/// Relies on `base64::encode` (standard alphabet with padding): the result
/// depends on the text alone. It cannot overflow its size computation on a
/// string, whose length is at most `isize::MAX` bytes.
#[verifier::external_body]
fn encode_base64(text: &str) -> (r: String)
    ensures
        r@ == base64_of(text@),
{
    base64::encode(text)
}

/// Joins user name and password as a basic-auth credential.
pub fn credential_pair(auth: &Auth) -> (r: String)
    ensures
        r@ == credential_text(*auth),
{
    let mut raw_pair = auth.username.clone();
    if let Some(pass) = &auth.password {
        proof {
            reveal_strlit(":");
        }
        raw_pair.append(":");
        raw_pair.append(pass.as_str());
    }
    raw_pair
}

/// The header value for an already encoded credential.
pub fn basic_auth_value(encoded: &str) -> (r: String)
    ensures
        r@ == "Basic "@ + encoded@,
{
    join_text("Basic ", encoded)
}

/// The `Authorization` header value for a credential.
pub fn header_from_basic_auth(auth: &Auth) -> (r: String)
    ensures
        r@ == "Basic "@ + base64_of(credential_text(*auth)),
{
    let pair = credential_pair(auth);
    let encoded = encode_base64(pair.as_str());
    basic_auth_value(encoded.as_str())
}

pub open spec fn header_view(h: (String, String)) -> (Seq<char>, Seq<char>) {
    (h.0@, h.1@)
}

impl HttpTarget {
    /// The request for a configured target: its URL, a `User-Agent` header,
    /// and an `Authorization` header when the target has a credential.
    pub fn for_target(target: &CanaryTarget, user_agent: &str) -> (r: HttpTarget)
        ensures
            r.url@ == target.host@,
            r.extra_headers@.len() == if target.basic_auth is Some { 2int } else { 1int },
            header_view(r.extra_headers@[0]) == ("User-Agent"@, user_agent@),
            target.basic_auth matches Some(a) ==> header_view(r.extra_headers@[1]) == (
                "Authorization"@,
                "Basic "@ + base64_of(credential_text(a)),
            ),
    {
        let mut extra_headers: Vec<(String, String)> = Vec::new();
        extra_headers.push((String::from_str("User-Agent"), String::from_str(user_agent)));
        if let Some(a) = &target.basic_auth {
            extra_headers.push((String::from_str("Authorization"), header_from_basic_auth(a)));
        }
        HttpTarget { url: target.host.clone(), extra_headers }
    }
}

/// When a connection was opened and, once it was, when it became usable
/// (TLS complete for https), in nanoseconds on the probe's clock.
pub struct ConnectSummary {
    pub start_time: u64,
    pub connected_time: Option<u64>,
}

impl ConnectSummary {
    /// A connection becomes usable no earlier than it was opened.
    pub open spec fn wf(&self) -> bool {
        self.connected_time matches Some(c) ==> self.start_time <= c
    }

    /// Checks `wf`.
    pub fn is_consistent(&self) -> (r: bool)
        ensures
            r == self.wf(),
    {
        match self.connected_time {
            Some(c) => self.start_time <= c,
            None => true,
        }
    }

    pub fn start_time(&self) -> (r: u64)
        ensures
            r == self.start_time,
    {
        self.start_time
    }

    pub fn connected_time(&self) -> (r: Option<u64>)
        requires
            self.wf(),
        ensures
            r == self.connected_time,
            r matches Some(c) ==> self.start_time <= c,
    {
        self.connected_time
    }
}

pub open spec fn is_server_error(code: u16) -> bool {
    500 <= code < 600
}

pub open spec fn is_client_error(code: u16) -> bool {
    400 <= code < 500
}

/// The handshake span, recorded for TLS connections that completed it.
pub open spec fn handshake_spans(tls: bool, s: ConnectSummary) -> Seq<CheckTimeSpan> {
    match s.connected_time {
        Some(c) if tls => seq![CheckTimeSpan { name: "tls-handshake", started_at: s.start_time, ended_at: c }],
        _ => Seq::empty(),
    }
}

/// The request span: from the usable connection (or its opening, if that is
/// all that is known) to the answer.
pub open spec fn http_span(s: ConnectSummary, finished_at: u64) -> CheckTimeSpan {
    CheckTimeSpan {
        name: "http",
        started_at: s.connected_time.unwrap_or(s.start_time),
        ended_at: finished_at,
    }
}

/// Nanoseconds from opening the connection to the answer.
pub open spec fn latency_of(s: ConnectSummary, finished_at: u64) -> nat {
    if finished_at >= s.start_time {
        (finished_at - s.start_time) as nat
    } else {
        0
    }
}

pub open spec fn bad_status_text(code: u16) -> Seq<char> {
    "bad HTTP status "@ + decimal(code as nat)
}

/// How std's `Debug` writes a `Duration` of `ns` nanoseconds (`1.5s`,
/// `250ms`, ...).
pub uninterp spec fn duration_debug_of(ns: nat) -> Seq<char>;

/// Relies on `Duration::from_nanos` and the `Debug` impl of `Duration`: the
/// text depends on the duration alone. std documents no exact format.
#[verifier::external_body]
fn duration_debug(ns: u64) -> (r: String)
    ensures
        r@ == duration_debug_of(ns as nat),
{
    format!("{:?}", std::time::Duration::from_nanos(ns))
}

pub open spec fn high_latency_text(latency_ns: nat) -> Seq<char> {
    "High latency: "@ + duration_debug_of(latency_ns)
}

pub open spec fn connection_error_text(msg: Seq<char>) -> Seq<char> {
    "hyper error: "@ + msg
}

impl HttpCheck {
    /// The status an answer with `code` and latency `latency_ns` earns.
    pub open spec fn status_for(&self, code: u16, latency_ns: nat) -> CheckStatus {
        if is_server_error(code) || (!self.allow_client_error && is_client_error(code)) {
            CheckStatus::Failed
        } else if self.latency_requirement < latency_ns {
            CheckStatus::Degraded
        } else {
            CheckStatus::Alive
        }
    }

    /// Classifies what one address did: a transport error fails it; a 5xx,
    /// or a 4xx unless client errors are allowed, fails it; an answer slower
    /// than the requirement degrades it; anything else is alive.
    pub fn evaluate(
        &self,
        target: ProbeAddr,
        tls: bool,
        summary: &ConnectSummary,
        reply: Result<u16, String>,
        finished_at: u64,
    ) -> (r: CheckResultElement)
        requires
            summary.wf(),
        ensures
            r.target == target,
            match reply {
                Err(msg) => {
                    &&& r.check_status == CheckStatus::Failed
                    &&& r.status_code is None
                    &&& opt_view(r.err_msg) == Some(connection_error_text(msg@))
                    &&& r.timeline@ == handshake_spans(tls, *summary)
                },
                Ok(code) => {
                    let latency = latency_of(*summary, finished_at);
                    let status = self.status_for(code, latency);
                    &&& r.check_status == status
                    &&& r.status_code == Some(code)
                    &&& status == CheckStatus::Failed ==> opt_view(r.err_msg) == Some(
                        bad_status_text(code),
                    )
                    &&& status == CheckStatus::Degraded ==> opt_view(r.err_msg) == Some(
                        high_latency_text(latency),
                    )
                    &&& status == CheckStatus::Alive ==> r.err_msg is None
                    &&& r.timeline@ == handshake_spans(tls, *summary).push(
                        http_span(*summary, finished_at),
                    )
                },
            },
    {
        let mut timeline: Vec<CheckTimeSpan> = Vec::new();
        if tls {
            if let Some(c) = summary.connected_time {
                timeline.push(CheckTimeSpan { name: "tls-handshake", started_at: summary.start_time, ended_at: c });
            }
        }
        assert(timeline@ =~= handshake_spans(tls, *summary));
        let code = match reply {
            Err(msg) => {
                let m = join_text("hyper error: ", msg.as_str());
                return CheckResultElement {
                    target,
                    check_status: CheckStatus::Failed,
                    status_code: None,
                    err_msg: Some(m),
                    timeline,
                };
            },
            Ok(code) => code,
        };
        let http_start = match summary.connected_time {
            Some(c) => c,
            None => summary.start_time,
        };
        timeline.push(CheckTimeSpan { name: "http", started_at: http_start, ended_at: finished_at });

        let mut is_failed = 500 <= code && code < 600;
        if !self.allow_client_error {
            is_failed = is_failed || (400 <= code && code < 500);
        }
        if is_failed {
            let digits = decimal_string(code as u64);
            let m = join_text("bad HTTP status ", digits.as_str());
            return CheckResultElement {
                target,
                check_status: CheckStatus::Failed,
                status_code: Some(code),
                err_msg: Some(m),
                timeline,
            };
        }
        let total_latency = if finished_at >= summary.start_time {
            finished_at - summary.start_time
        } else {
            0
        };
        if self.latency_requirement < total_latency {
            let shown = duration_debug(total_latency);
            let m = join_text("High latency: ", shown.as_str());
            CheckResultElement {
                target,
                check_status: CheckStatus::Degraded,
                status_code: Some(code),
                err_msg: Some(m),
                timeline,
            }
        } else {
            CheckResultElement {
                target,
                check_status: CheckStatus::Alive,
                status_code: Some(code),
                err_msg: None,
                timeline,
            }
        }
    }

    /// Gathers the per-address results of one cycle. A cycle that reached no
    /// address yields a result without outcomes, which counts as failed.
    pub fn aggregate(results: Vec<CheckResult>) -> (r: CheckResult)
        ensures
            r.elements@ == crate::checkengine::all_elements(results@),
            results@.len() == 0 ==> r.name == CHECK_NAME,
            results@.len() > 0 ==> r.name == results@[0].name,
    {
        if results.len() == 0 {
            CheckResult { name: CHECK_NAME, elements: Vec::new() }
        } else {
            CheckResult::merge(results)
        }
    }
}

} // verus!
