//! Choosing a transport for a request, and the addresses and header values
//! both transports need.
use vstd::prelude::*;
use vstd::string::*;
use crate::text::{contains, has_infix, has_prefix, starts_with};
use crate::error::OllamaError;
use crate::catalog::opt_text;

verus! {

/// The port of a server whose endpoint names none.
pub const DEFAULT_PORT: u16 = 11434;

/// The two ways of reaching the server.
#[derive(PartialEq, Eq, Structural, Clone, Copy, Debug)]
pub enum Transport {
    /// A direct connection with a hand-built request; for a same-host server
    /// without credentials.
    RawSocket,
    /// The injected HTTP client; for everything else.
    HttpClient,
}

/// An endpoint on this machine: `http://localhost…`, `http://127.0.0.1…`, or
/// any plain-HTTP endpoint that mentions `localhost`.
pub open spec fn is_local_endpoint(url: Seq<char>) -> bool {
    has_prefix(url, "http://localhost"@) || has_prefix(url, "http://127.0.0.1"@) || (
    has_prefix(url, "http://"@) && has_infix(url, "localhost"@))
}

/// The raw socket is used only for a local endpoint and no credential; a
/// credential always sends the request through the HTTP client.
pub open spec fn transport_for(url: Seq<char>, has_key: bool) -> Transport {
    if is_local_endpoint(url) && !has_key {
        Transport::RawSocket
    } else {
        Transport::HttpClient
    }
}

/// Whether `api_url` names an endpoint on this machine.
pub fn is_local(api_url: &str) -> (r: bool)
    ensures
        r == is_local_endpoint(api_url@),
{
    starts_with(api_url, "http://localhost") || starts_with(api_url, "http://127.0.0.1") || (
    starts_with(api_url, "http://") && contains(api_url, "localhost"))
}

/// Picks the transport of one request. The choice is final: a failure of the
/// chosen path is reported, never retried on the other one.
pub fn select_transport(api_url: &str, api_key: Option<&str>) -> (r: Transport)
    ensures
        r == transport_for(api_url@, api_key is Some),
{
    if is_local(api_url) && api_key.is_none() {
        Transport::RawSocket
    } else {
        Transport::HttpClient
    }
}

/// `api_url` followed by `path`.
fn join(api_url: &str, path: &str) -> (r: String)
    ensures
        r@ == api_url@ + path@,
{
    let r = String::from_str(api_url);
    r.concat(path)
}

/// The streaming chat endpoint.
pub fn chat_url(api_url: &str) -> (r: String)
    ensures
        r@ == api_url@ + "/api/chat"@,
{
    join(api_url, "/api/chat")
}

/// The model listing endpoint.
pub fn tags_url(api_url: &str) -> (r: String)
    ensures
        r@ == api_url@ + "/api/tags"@,
{
    join(api_url, "/api/tags")
}

/// The capability probe endpoint.
pub fn show_url(api_url: &str) -> (r: String)
    ensures
        r@ == api_url@ + "/api/show"@,
{
    join(api_url, "/api/show")
}

/// The `Authorization` header value for a credential.
pub fn bearer(api_key: &str) -> (r: String)
    ensures
        r@ == "Bearer "@ + api_key@,
{
    let r = String::from_str("Bearer ");
    r.concat(api_key)
}

/// Whether an HTTP status reports success.
pub open spec fn is_success(status: u16) -> bool {
    200 <= status <= 299
}

/// Accepts a success status; any other status becomes an error that carries
/// the status and the body the server sent with it.
pub fn check_status(status: u16, body: String) -> (r: Result<(), OllamaError>)
    ensures
        is_success(status) ==> r is Ok,
        !is_success(status) ==> (r matches Err(OllamaError::HttpStatus { status: s, body: b })
            && s == status && b@ == body@),
{
    if 200 <= status && status <= 299 {
        Ok(())
    } else {
        Err(OllamaError::HttpStatus { status, body })
    }
}

/// The character of a decimal digit.
pub open spec fn digit_char(d: nat) -> char {
    if d == 0 { '0' } else if d == 1 { '1' } else if d == 2 { '2' } else if d == 3 { '3' }
    else if d == 4 { '4' } else if d == 5 { '5' } else if d == 6 { '6' } else if d == 7 { '7' }
    else if d == 8 { '8' } else { '9' }
}

/// The decimal notation of `n`, without leading zeros.
pub open spec fn decimal(n: nat) -> Seq<char>
    decreases n,
{
    if n < 10 {
        seq![digit_char(n)]
    } else {
        decimal(n / 10).push(digit_char(n % 10))
    }
}

fn digit_text(d: usize) -> (r: &'static str)
    requires
        d < 10,
    ensures
        r@ == seq![digit_char(d as nat)],
{
    proof {
        reveal_strlit("0");
        reveal_strlit("1");
        reveal_strlit("2");
        reveal_strlit("3");
        reveal_strlit("4");
        reveal_strlit("5");
        reveal_strlit("6");
        reveal_strlit("7");
        reveal_strlit("8");
        reveal_strlit("9");
    }
    if d == 0 { "0" } else if d == 1 { "1" } else if d == 2 { "2" } else if d == 3 { "3" }
    else if d == 4 { "4" } else if d == 5 { "5" } else if d == 6 { "6" } else if d == 7 { "7" }
    else if d == 8 { "8" } else { "9" }
}

/// The decimal notation of `n`.
pub fn decimal_text(n: usize) -> (r: String)
    ensures
        r@ == decimal(n as nat),
    decreases n,
{
    if n < 10 {
        String::from_str(digit_text(n))
    } else {
        let r = decimal_text(n / 10);
        r.concat(digit_text(n % 10))
    }
}

/// What `url::Url::parse` makes of an endpoint: `None` where it refuses it,
/// else the URL's host, if it has one, and the port it names, if any.
pub uninterp spec fn parsed_endpoint(url: Seq<char>) -> Option<(Option<Seq<char>>, Option<u16>)>;

/// Relies on `url::Url::parse`, and on `Url::host_str` and `Url::port` of the
/// URL it returns.
#[verifier::external_body]
fn parse_endpoint(api_url: &str) -> (r: Option<(Option<String>, Option<u16>)>)
    ensures
        match r {
            None => parsed_endpoint(api_url@) is None,
            Some((h, p)) => parsed_endpoint(api_url@) == Some((opt_text(h), p)),
        },
{
    match url::Url::parse(api_url) {
        Ok(u) => Some((u.host_str().map(String::from), u.port())),
        Err(_) => None,
    }
}

/// Where the raw transport connects: the host it names in the `Host` header,
/// and `host:port` for the connection itself.
pub struct SocketTarget {
    pub host: String,
    pub addr: String,
}

/// The host of a parsed endpoint, `localhost` where it names none.
pub open spec fn target_host(h: Option<Seq<char>>) -> Seq<char> {
    match h {
        Some(h) => h,
        None => "localhost"@,
    }
}

/// The port of a parsed endpoint, `DEFAULT_PORT` where it names none.
pub open spec fn target_port(p: Option<u16>) -> u16 {
    match p {
        Some(p) => p,
        None => DEFAULT_PORT,
    }
}

/// The host and `host:port` address that the raw transport connects to; an
/// endpoint that does not parse as a URL is a connection error.
pub fn socket_target(api_url: &str) -> (r: Result<SocketTarget, OllamaError>)
    ensures
        match parsed_endpoint(api_url@) {
            None => r matches Err(OllamaError::Connection(_)),
            Some((h, p)) => r matches Ok(t) && t.host@ == target_host(h) && t.addr@
                == target_host(h) + ":"@ + decimal(target_port(p) as nat),
        },
{
    match parse_endpoint(api_url) {
        None => {
            let m = String::from_str("invalid endpoint: ");
            Err(OllamaError::Connection(m.concat(api_url)))
        },
        Some((h, p)) => {
            let host = match h {
                Some(h) => h,
                None => String::from_str("localhost"),
            };
            let port = match p {
                Some(p) => p,
                None => DEFAULT_PORT,
            };
            let addr = host.clone().concat(":");
            let addr = addr.concat(decimal_text(port as usize).as_str());
            Ok(SocketTarget { host, addr })
        },
    }
}

} // verus!
