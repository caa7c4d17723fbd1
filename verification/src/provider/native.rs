//! The client of a Beam relay: it answers the requests that the relay passes on.
use vstd::prelude::*;

use axum::http::{HeaderMap, HeaderValue};

use crate::decimal;
use crate::duration;
use crate::duration::Timestamp;
use crate::headers;
use crate::headers::HeaderRule;
use crate::relay_protocol;
use crate::relay_protocol::{
    ClientToRelayMessage, HeaderPair, RelaySessionCreateRequest, RelayToClientMessage,
    DEFAULT_RELAY_URL,
};
use crate::text;
use crate::weburl;

verus! {

/// How long a relay is asked to keep a session, in seconds.
pub const SESSION_SECS: u64 = 3_600;

/// The status of the answer where the local server gives none.
pub const BAD_GATEWAY: u16 = 502;

/// The reason where the connection to the relay is gone.
pub const SENDER_STOPPED: &'static str = "relay websocket sender stopped";

/// The URL of the relay: the one that is configured, or the default.
pub open spec fn relay_address(configured: Option<Seq<char>>) -> Seq<char> {
    match configured {
        Some(url) => url,
        None => DEFAULT_RELAY_URL@,
    }
}

/// The URL of a relay as it is written out, or the given error where the text is no URL.
fn checked_relay_url(configured: Option<String>, invalid: &'static str) -> (res: Result<
    String,
    &'static str,
>)
    ensures
        match weburl::url_parts(relay_address(text::optional(configured))) {
            Ok((_, _, _, written)) => res matches Ok(url) && url@ == written,
            Err(_) => res == Err::<String, &'static str>(invalid),
        },
{
    let url = match configured {
        Some(url) => url,
        None => DEFAULT_RELAY_URL.to_string(),
    };
    match weburl::read_url(url.as_str()) {
        Ok(parts) => Ok(parts.text),
        Err(_) => Err(invalid),
    }
}

/// The URL under which the sender finds the relay.
pub fn relay_base_url(configured: Option<String>) -> (res: Result<String, &'static str>)
    ensures
        match weburl::url_parts(relay_address(text::optional(configured))) {
            Ok((_, _, _, written)) => res matches Ok(url) && url@ == written,
            Err(_) => res matches Err(error) && error@ == "invalid BEAM_RELAY_URL"@,
        },
{
    checked_relay_url(configured, "invalid BEAM_RELAY_URL")
}

/// The URL under which visitors find the relay.
pub fn relay_public_url(configured: Option<String>) -> (res: Result<String, &'static str>)
    ensures
        match weburl::url_parts(relay_address(text::optional(configured))) {
            Ok((_, _, _, written)) => res matches Ok(url) && url@ == written,
            Err(_) => res matches Err(error) && error@ == "invalid BEAM_RELAY_PUBLIC_URL"@,
        },
{
    checked_relay_url(configured, "invalid BEAM_RELAY_PUBLIC_URL")
}

/// Where sessions of a relay are created.
pub fn create_session_url(relay_url: &str) -> (res: Result<String, &'static str>)
    ensures
        match weburl::url_joined(relay_url@, "v1/sessions"@) {
            Some(url) => res matches Ok(made) && made@ == url,
            None => res matches Err(error) && error@ == "invalid relay URL"@,
        },
{
    match weburl::join_url(relay_url, "v1/sessions") {
        Some(url) => Ok(url),
        None => Err("invalid relay URL"),
    }
}

/// A host that is this machine.
pub open spec fn is_own_host(host: Seq<char>) -> bool {
    host == "127.0.0.1"@ || host == "localhost"@
}

/// Where a relay is asked whether it is there; only one on this machine is.
pub open spec fn health_address(relay_url: Seq<char>) -> Option<Seq<char>> {
    match weburl::host_of(relay_url) {
        Some(host) => if is_own_host(host) {
            weburl::url_joined(relay_url, "healthz"@)
        } else {
            None
        },
        None => None,
    }
}

/// Where a relay is asked whether it is there.
pub fn health_url(relay_url: &str) -> (res: Option<String>)
    ensures
        text::optional(res) == health_address(relay_url@),
{
    let host = match weburl::url_host(relay_url) {
        Some(host) => host,
        None => return None,
    };
    if !text::same(host.as_str(), "127.0.0.1") && !text::same(host.as_str(), "localhost") {
        return None;
    }
    weburl::join_url(relay_url, "healthz")
}

/// What a relay is asked for at the time `now`, in seconds since 1970; none where the session
/// would end after the last second there is.
pub fn session_request_for(now: u64) -> (res: Option<RelaySessionCreateRequest>)
    ensures
        now + SESSION_SECS <= u64::MAX ==> (res matches Some(request) && request.download_name@
            == "beam"@ && request.expires_at_unix == now + SESSION_SECS),
        now + SESSION_SECS > u64::MAX ==> res is None,
{
    if now <= u64::MAX - SESSION_SECS {
        Some(
            RelaySessionCreateRequest {
                download_name: "beam".to_string(),
                expires_at_unix: now + SESSION_SECS,
            },
        )
    } else {
        None
    }
}

/// What a relay is asked for now: of every reading of the clock, what `session_request_for`
/// gives for it.
pub fn session_request() -> (res: Option<RelaySessionCreateRequest>)
    ensures
        exists|now: Timestamp|
            now.on_clock() && match res {
                Some(request) => request.download_name@ == "beam"@ && request.expires_at_unix
                    == #[trigger] now.unix_secs() + SESSION_SECS,
                None => now.unix_secs() + SESSION_SECS > u64::MAX,
            },
{
    session_request_for(duration::unix_now())
}

/// What comes from a relay.
#[derive(Debug)]
pub enum ReaderEvent {
    Message { message: RelayToClientMessage },
    /// A text that is no message.
    Unreadable { error: String },
    Closed,
    /// Anything that a relay may send and that means nothing here.
    Other,
    Failed { error: String },
}

/// What is done with what comes from a relay.
#[derive(Debug)]
pub enum ReaderStep {
    /// A request is passed on to the local server.
    Proxy {
        request_id: u64,
        method: String,
        path: String,
        query: Option<String>,
        headers: Vec<HeaderPair>,
    },
    /// The connection is over, and the status says why.
    Stop { status: String },
    Continue,
}

/// What is done with what comes from a relay.
pub fn react(event: ReaderEvent) -> (res: ReaderStep)
    ensures
        match event {
            ReaderEvent::Message {
                message: RelayToClientMessage::RequestStart {
                    request_id,
                    method,
                    path,
                    query,
                    headers,
                },
            } => res == (ReaderStep::Proxy { request_id, method, path, query, headers }),
            ReaderEvent::Message { message: RelayToClientMessage::SessionClose { reason } }
                => res matches ReaderStep::Stop { status } && status@
                == "Beam native relay closed: "@ + reason@,
            ReaderEvent::Unreadable { error } => res matches ReaderStep::Stop { status } && status@
                == "Beam native relay protocol error: "@ + error@,
            ReaderEvent::Closed => res matches ReaderStep::Stop { status } && status@
                == "Beam native relay closed"@,
            ReaderEvent::Other => res is Continue,
            ReaderEvent::Failed { error } => res matches ReaderStep::Stop { status } && status@
                == "Beam native relay disconnected: "@ + error@,
        },
{
    match event {
        ReaderEvent::Message { message } => match message {
            RelayToClientMessage::RequestStart { request_id, method, path, query, headers }
                => ReaderStep::Proxy { request_id, method, path, query, headers },
            RelayToClientMessage::SessionClose { reason } => {
                let mut status = "Beam native relay closed: ".to_string();
                status.append(reason.as_str());
                ReaderStep::Stop { status }
            },
        },
        ReaderEvent::Unreadable { error } => {
            let mut status = "Beam native relay protocol error: ".to_string();
            status.append(error.as_str());
            ReaderStep::Stop { status }
        },
        ReaderEvent::Closed => ReaderStep::Stop { status: "Beam native relay closed".to_string() },
        ReaderEvent::Other => ReaderStep::Continue,
        ReaderEvent::Failed { error } => {
            let mut status = "Beam native relay disconnected: ".to_string();
            status.append(error.as_str());
            ReaderStep::Stop { status }
        },
    }
}

/// The status once the relay has given a public URL.
pub fn ready_status(public_url: &str) -> (res: String)
    ensures
        res@ == "Beam native relay ready at "@ + public_url@,
{
    let mut status = "Beam native relay ready at ".to_string();
    status.append(public_url);
    status
}

/// The status where a request could not be answered.
pub fn request_failed_status(request_id: u64, error: &str) -> (res: String)
    ensures
        res@ == "Beam native relay request "@ + decimal::decimal(request_id as nat)
            + " failed: "@ + error@,
{
    let mut status = "Beam native relay request ".to_string();
    status.append(decimal::format_u64(request_id).as_str());
    status.append(" failed: ");
    status.append(error);
    status
}

/// Trusted: `http::Method::from_bytes`. It accepts a nonempty text of the characters that can
/// stand in a header name, and refuses everything else.
#[verifier::external_body]
fn accepts_method(method: &str) -> (res: bool)
    ensures
        res == is_method(method@),
{
    axum::http::Method::from_bytes(method.as_bytes()).is_ok()
}

/// `method` can be the method of a request.
pub open spec fn is_method(method: Seq<char>) -> bool {
    &&& method.len() > 0
    &&& forall|i: int| 0 <= i < method.len() ==> headers::is_name_char(#[trigger] method[i])
}

/// A request to the local server.
#[derive(Debug)]
pub struct ProxyRequest {
    pub method: String,
    pub url: String,
    pub headers: HeaderMap<HeaderValue>,
}

/// The URL of the local server for a path and a query.
pub open spec fn local_address(
    local_origin: Seq<char>,
    path: Seq<char>,
    query: Option<Seq<char>>,
) -> Seq<char> {
    match query {
        Some(query) => local_origin + path + "?"@ + query,
        None => local_origin + path,
    }
}

/// The URL of the local server for a path and a query.
pub fn proxy_url(local_origin: &str, path: &str, query: Option<&str>) -> (res: String)
    ensures
        res@ == local_address(local_origin@, path@, text::optional_str(query)),
{
    let mut url = local_origin.to_string();
    url.append(path);
    if let Some(query) = query {
        url.append("?");
        url.append(query);
    }
    url
}

/// The request to the local server for one that the relay has passed on. It is refused where
/// its method is none, or where there are more headers than a request can hold.
pub fn proxy_request(
    local_origin: &str,
    method: &str,
    path: &str,
    query: Option<&str>,
    pairs: &Vec<HeaderPair>,
) -> (res: Result<ProxyRequest, String>)
    ensures
        !is_method(method@) ==> (res matches Err(error) && error@
            == "unsupported proxied method "@ + method@),
        is_method(method@) && pairs@.len() <= headers::ROOM ==> res is Ok,
        res matches Ok(request) ==> {
            &&& request.method@ == method@
            &&& request.url@ == local_address(local_origin@, path@, text::optional_str(query))
            &&& headers::header_entries(request.headers) == headers::filled(
                relay_protocol::pair_views(pairs@),
            )
        },
{
    let url = proxy_url(local_origin, path, query);
    if !accepts_method(method) {
        let mut error = "unsupported proxied method ".to_string();
        error.append(method);
        return Err(error);
    }
    match headers::pairs_to_headers(pairs) {
        Some(headers) => Ok(ProxyRequest { method: method.to_string(), url, headers }),
        None => Err("too many proxied headers".to_string()),
    }
}

/// What comes from the local server for a request.
#[derive(Debug)]
pub enum ProxyEvent {
    Unreachable { error: String },
    Head { status: u16, headers: HeaderMap<HeaderValue> },
    Chunk { bytes: Vec<u8> },
    Broken { error: String },
    End,
}

/// What goes to the relay for it.
#[derive(Debug)]
pub enum ProxyOutput {
    Control { message: ClientToRelayMessage },
    Body { frame: Vec<u8> },
}

/// What goes to the relay for what comes from the local server: its status and the headers that
/// are passed on, its body in frames, and its end or why there is none.
pub fn relay_output(request_id: u64, event: &ProxyEvent) -> (res: ProxyOutput)
    ensures
        match *event {
            ProxyEvent::Unreachable { error } => res matches ProxyOutput::Control {
                message: ClientToRelayMessage::ResponseError { request_id: id, status, message },
            } && id == request_id && status == BAD_GATEWAY && message@
                == "Beam could not reach its local server: "@ + error@,
            ProxyEvent::Head { status: given, headers } => res matches ProxyOutput::Control {
                message: ClientToRelayMessage::ResponseStart { request_id: id, status, headers: pairs },
            } && id == request_id && status == given && relay_protocol::pair_views(pairs@)
                == headers::passed_on(headers::header_entries(headers), HeaderRule::Response),
            ProxyEvent::Chunk { bytes } => res matches ProxyOutput::Body { frame } && frame@
                == relay_protocol::body_frame(request_id, bytes@),
            ProxyEvent::Broken { error } => res matches ProxyOutput::Control {
                message: ClientToRelayMessage::ResponseError { request_id: id, status, message },
            } && id == request_id && status == BAD_GATEWAY && message@
                == "Beam relay response stream failed: "@ + error@,
            ProxyEvent::End => res matches ProxyOutput::Control {
                message: ClientToRelayMessage::ResponseEnd { request_id: id },
            } && id == request_id,
        },
{
    match event {
        ProxyEvent::Unreachable { error } => {
            let mut message = "Beam could not reach its local server: ".to_string();
            message.append(error.as_str());
            ProxyOutput::Control {
                message: ClientToRelayMessage::ResponseError {
                    request_id,
                    status: BAD_GATEWAY,
                    message,
                },
            }
        },
        ProxyEvent::Head { status, headers } => ProxyOutput::Control {
            message: ClientToRelayMessage::ResponseStart {
                request_id,
                status: *status,
                headers: headers::headers_to_pairs(headers, HeaderRule::Response),
            },
        },
        ProxyEvent::Chunk { bytes } => ProxyOutput::Body {
            frame: relay_protocol::encode_body_chunk(request_id, bytes.as_slice()),
        },
        ProxyEvent::Broken { error } => {
            let mut message = "Beam relay response stream failed: ".to_string();
            message.append(error.as_str());
            ProxyOutput::Control {
                message: ClientToRelayMessage::ResponseError {
                    request_id,
                    status: BAD_GATEWAY,
                    message,
                },
            }
        },
        ProxyEvent::End => ProxyOutput::Control {
            message: ClientToRelayMessage::ResponseEnd { request_id },
        },
    }
}

} // verus!
