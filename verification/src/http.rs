//! The request line of a client: method, target and version.

use vstd::prelude::*;
use vstd::string::StringExecFns;
use vstd::string::StrSliceExecFns;
use url::Url;
use crate::text::{chars_of, ends_with_crlf, has_prefix, next_word, range_has_prefix, range_is,
    range_is_ignoring_case, same_ignoring_case, words};
use crate::uri::{url_host_str, url_parse, url_port_or_known_default};

verus! {

/// The port that stands for a target whose URL gives none.
pub const FALLBACK_PORT: u16 = 80;

/// Why a request line was rejected.
#[derive(Clone, Copy, Debug, PartialEq, Eq, Structural)]
pub enum RequestError {
    /// The line does not end with a carriage return and a line feed, or it
    /// holds fewer than the three words of a request line.
    InvalidRequest,
    /// The method is neither `GET` nor `CONNECT`.
    InvalidMethod,
    /// The version is neither `HTTP/1.0` nor `HTTP/1.1`.
    InvalidVersion,
    /// The target, with its scheme put in front, is no URL.
    InvalidUri,
    /// The target's URL names no host.
    InvalidHost,
}

impl RequestError {
    /// A short description of the error.
    pub fn message(&self) -> (s: &'static str)
        ensures
            s@ == match *self {
                RequestError::InvalidRequest => "Invalid HTTP request"@,
                RequestError::InvalidMethod => "Invalid HTTP method"@,
                RequestError::InvalidVersion => "Invalid HTTP version"@,
                RequestError::InvalidUri => "Invalid URI"@,
                RequestError::InvalidHost => "Invalid host"@,
            },
    {
        match self {
            RequestError::InvalidRequest => "Invalid HTTP request",
            RequestError::InvalidMethod => "Invalid HTTP method",
            RequestError::InvalidVersion => "Invalid HTTP version",
            RequestError::InvalidUri => "Invalid URI",
            RequestError::InvalidHost => "Invalid host",
        }
    }
}

/// What a client asks of the proxy.
#[derive(Debug)]
pub struct HttpRequest {
    /// The version as the client wrote it.
    pub version: String,
    /// The host to connect to.
    pub host: String,
    /// The port to connect to.
    pub port: u16,
    /// Whether the client asked for a tunnel.
    pub is_https: bool,
}

/// A request as a plain value.
pub struct RequestView {
    pub version: Seq<char>,
    pub host: Seq<char>,
    pub port: u16,
    pub is_https: bool,
}

impl View for HttpRequest {
    type V = RequestView;

    open spec fn view(&self) -> RequestView {
        RequestView {
            version: self.version@,
            host: self.host@,
            port: self.port,
            is_https: self.is_https,
        }
    }
}

/// Whether `method` is `GET`, in any case.
pub open spec fn is_get(method: Seq<char>) -> bool {
    same_ignoring_case(method, "GET"@)
}

/// Whether `method` is `CONNECT`, in any case.
pub open spec fn is_connect(method: Seq<char>) -> bool {
    same_ignoring_case(method, "CONNECT"@)
}

/// Whether `version` is one of the two versions that are served.
pub open spec fn is_version(version: Seq<char>) -> bool {
    version == "HTTP/1.1"@ || version == "HTTP/1.0"@
}

/// The scheme that a target is taken to have: `https://` for a tunnel,
/// `http://` otherwise.
pub open spec fn implied_scheme(tunnel: bool) -> Seq<char> {
    if tunnel {
        "https://"@
    } else {
        "http://"@
    }
}

/// The URL that a target stands for: the target itself where it begins with
/// the implied scheme, else the target with that scheme put in front.
pub open spec fn implied_uri(target: Seq<char>, tunnel: bool) -> Seq<char> {
    if has_prefix(target, implied_scheme(tunnel)) {
        target
    } else {
        implied_scheme(tunnel) + target
    }
}

/// Host and port from what the URL parser found: the host must be there, and
/// a missing port becomes [`FALLBACK_PORT`].
pub open spec fn endpoint_of(host: Option<Seq<char>>, port: Option<u16>) -> Result<
    (Seq<char>, u16),
    RequestError,
> {
    match host {
        None => Err(RequestError::InvalidHost),
        Some(h) => Ok(
            (
                h,
                match port {
                    Some(p) => p,
                    None => FALLBACK_PORT,
                },
            ),
        ),
    }
}

/// Host and port of a URL given as text.
pub open spec fn uri_endpoint(uri: Seq<char>) -> Result<(Seq<char>, u16), RequestError> {
    match url_parse(uri) {
        Err(_) => Err(RequestError::InvalidUri),
        Ok(url) => endpoint_of(url_host_str(url), url_port_or_known_default(url)),
    }
}

/// The request that a line stands for, or the reason why it stands for
/// none. The checks come in this order: the line ending, the method, the
/// presence of target and version, the version, the target.
pub open spec fn request_of(line: Seq<char>) -> Result<RequestView, RequestError> {
    let w = words(line);
    if !ends_with_crlf(line) || w.len() == 0 {
        Err(RequestError::InvalidRequest)
    } else if !is_get(w[0]) && !is_connect(w[0]) {
        Err(RequestError::InvalidMethod)
    } else if w.len() < 3 {
        Err(RequestError::InvalidRequest)
    } else if !is_version(w[2]) {
        Err(RequestError::InvalidVersion)
    } else {
        match uri_endpoint(implied_uri(w[1], is_connect(w[0]))) {
            Err(e) => Err(e),
            Ok((host, port)) => Ok(
                RequestView { version: w[2], host, port, is_https: is_connect(w[0]) },
            ),
        }
    }
}

/// Only well-formed lines are accepted. A line that does not end with a
/// carriage return and a line feed is rejected; so is one whose method is
/// neither `GET` nor `CONNECT`, in any case; so is one whose version is
/// neither `HTTP/1.0` nor `HTTP/1.1`. A line that is accepted is a tunnel
/// request exactly if its method is `CONNECT`, and carries its version as
/// written.
pub proof fn malformed_lines_are_rejected(line: Seq<char>)
    ensures
        !ends_with_crlf(line) ==> request_of(line) == Err::<RequestView, RequestError>(
            RequestError::InvalidRequest,
        ),
        ends_with_crlf(line) && words(line).len() > 0 && !is_get(words(line)[0]) && !is_connect(
            words(line)[0],
        ) ==> request_of(line) == Err::<RequestView, RequestError>(RequestError::InvalidMethod),
        ends_with_crlf(line) && words(line).len() >= 3 && (is_get(words(line)[0]) || is_connect(
            words(line)[0],
        )) && !is_version(words(line)[2]) ==> request_of(line) == Err::<
            RequestView,
            RequestError,
        >(RequestError::InvalidVersion),
        request_of(line) matches Ok(request) ==> {
            &&& ends_with_crlf(line)
            &&& words(line).len() >= 3
            &&& is_get(words(line)[0]) || is_connect(words(line)[0])
            &&& is_version(words(line)[2])
            &&& request.is_https == is_connect(words(line)[0])
            &&& request.version == words(line)[2]
        },
{
}

/// No method is both `GET` and `CONNECT`.
pub proof fn methods_are_distinct(method: Seq<char>)
    ensures
        !(is_get(method) && is_connect(method)),
{
    reveal_strlit("GET");
    reveal_strlit("CONNECT");
}

/// Turns what the URL parser found in a target into host and port.
pub fn endpoint(host: Option<&str>, port: Option<u16>) -> (r: Result<(String, u16), RequestError>)
    ensures
        match r {
            Ok((h, p)) => endpoint_of(
                match host {
                    Some(s) => Some(s@),
                    None => None,
                },
                port,
            ) == Ok::<(Seq<char>, u16), RequestError>((h@, p)),
            Err(e) => endpoint_of(
                match host {
                    Some(s) => Some(s@),
                    None => None,
                },
                port,
            ) == Err::<(Seq<char>, u16), RequestError>(e),
        },
{
    match host {
        None => Err(RequestError::InvalidHost),
        Some(h) => {
            let p: u16 = match port {
                Some(p) => p,
                None => FALLBACK_PORT,
            };
            Ok((String::from_str(h), p))
        },
    }
}

/// Parses a URL and gives its host and port.
pub fn parse_uri(uri: &str) -> (r: Result<(String, u16), RequestError>)
    ensures
        match r {
            Ok((h, p)) => uri_endpoint(uri@) == Ok::<(Seq<char>, u16), RequestError>((h@, p)),
            Err(e) => uri_endpoint(uri@) == Err::<(Seq<char>, u16), RequestError>(e),
        },
{
    match Url::parse(uri) {
        Err(_) => Err(RequestError::InvalidUri),
        Ok(url) => endpoint(url.host_str(), url.port_or_known_default()),
    }
}

/// Parses the request line of a client.
pub fn parse_http_request(line: &str) -> (r: Result<HttpRequest, RequestError>)
    ensures
        match r {
            Ok(request) => request_of(line@) == Ok::<RequestView, RequestError>(request@),
            Err(e) => request_of(line@) == Err::<RequestView, RequestError>(e),
        },
{
    let chars = chars_of(line);
    let n = chars.len();
    if n < 2 || chars[n - 2] != '\r' || chars[n - 1] != '\n' {
        return Err(RequestError::InvalidRequest);
    }
    let (m0, m1) = match next_word(&chars, 0) {
        None => {
            return Err(RequestError::InvalidRequest);
        },
        Some(w) => w,
    };
    let is_get = range_is_ignoring_case(&chars, m0, m1, "GET");
    let is_connect = range_is_ignoring_case(&chars, m0, m1, "CONNECT");
    if !is_get && !is_connect {
        return Err(RequestError::InvalidMethod);
    }
    let (t0, t1) = match next_word(&chars, m1) {
        None => {
            return Err(RequestError::InvalidRequest);
        },
        Some(w) => w,
    };
    let (v0, v1) = match next_word(&chars, t1) {
        None => {
            return Err(RequestError::InvalidRequest);
        },
        Some(w) => w,
    };
    assert(words(line@).len() >= 3);
    assert(words(line@)[0] == line@.subrange(m0 as int, m1 as int));
    assert(words(line@)[1] == line@.subrange(t0 as int, t1 as int));
    assert(words(line@)[2] == line@.subrange(v0 as int, v1 as int));
    if !range_is(&chars, v0, v1, "HTTP/1.1") && !range_is(&chars, v0, v1, "HTTP/1.0") {
        return Err(RequestError::InvalidVersion);
    }
    let target = line.substring_char(t0, t1);
    let scheme = if is_connect {
        "https://"
    } else {
        "http://"
    };
    let uri = if range_has_prefix(&chars, t0, t1, scheme) {
        String::from_str(target)
    } else {
        String::from_str(scheme).concat(target)
    };
    match parse_uri(uri.as_str()) {
        Err(e) => Err(e),
        Ok((host, port)) => Ok(
            HttpRequest {
                version: String::from_str(line.substring_char(v0, v1)),
                host,
                port,
                is_https: is_connect,
            },
        ),
    }
}

} // verus!
