//! What a relay owes to visitors and senders.
use vstd::prelude::*;

use axum::http::{HeaderMap, HeaderValue};

use crate::headers;
use crate::headers::HeaderRule;
use crate::relay;
use crate::relay::pending;
use crate::relay::registry::Registry;
use crate::relay::session;
use crate::relay::session::{
    Delivery, FailedResponse, HeadOutcome, RelayRefusal, RelayResponseHead, RelaySession,
    SocketEvent, SocketStep,
};
use crate::relay::RelayState;
use crate::relay_protocol;
use crate::relay_protocol::{
    ClientToRelayMessage, FrameTooShort, HeaderPair, RelaySessionCreateRequest,
    RelaySessionCreateResponse, RelayToClientMessage,
};
use crate::text;
use crate::text::laws;
use crate::weburl;

verus! {

/// A visitor's request goes to the sender as it came: under its id, with its path and its query,
/// and with every header that is a text and does not belong to one connection. From then on it
/// waits for its answer, and all others wait as before.
pub proof fn request_reaches_sender(
    session: &mut RelaySession,
    request_id: u64,
    path: String,
    query: Option<String>,
    map: HeaderMap<HeaderValue>,
    message: RelayToClientMessage,
    name: Seq<char>,
    value: Seq<char>,
    other: u64,
)
    requires
        call_ensures(
            RelaySession::begin_request,
            (session, request_id, path, query, &map),
            message,
        ),
    ensures
        message matches RelayToClientMessage::RequestStart {
            request_id: id,
            method,
            path: asked,
            query: asked_query,
            headers: pairs,
        } && id == request_id && method@ == "GET"@ && asked@ == path@ && text::optional(
            asked_query,
        ) == text::optional(query) && (relay_protocol::pair_views(pairs@).contains((name, value))
            <==> !headers::laws::belongs_to_connection(name) && exists|i: int|
            0 <= i < headers::header_entries(map).len() && (#[trigger] headers::header_entries(
                map,
            )[i]).0 == name && headers::visible_text(headers::header_entries(map)[i].1) == Some(
                value,
            )),
        final(session).pending@.dom().contains(request_id),
        final(session).pending@[request_id] == false,
        other != request_id ==> final(session).pending@.dom().contains(other)
            == old(session).pending@.dom().contains(other),
        final(session).secret == old(session).secret,
        final(session).expires_at_unix == old(session).expires_at_unix,
{
    headers::laws::other_headers_are_passed_on(
        headers::header_entries(map),
        HeaderRule::Request,
        name,
        value,
    );
}

/// A visitor whose request gets no head is told why, and the request waits no longer; one whose
/// request gets a head is given that head.
pub proof fn every_visitor_is_answered(
    session: &mut RelaySession,
    request_id: u64,
    outcome: HeadOutcome,
    res: Result<RelayResponseHead, RelayRefusal>,
)
    requires
        call_ensures(RelaySession::conclude, (session, request_id, outcome), res),
    ensures
        outcome matches HeadOutcome::Head { head } ==> res == Ok::<RelayResponseHead, RelayRefusal>(
            head,
        ) && final(session).pending@ == old(session).pending@,
        !(outcome is Head) ==> res is Err && !final(session).pending@.dom().contains(request_id),
        outcome is TimedOut ==> res == Err::<RelayResponseHead, RelayRefusal>(
            RelayRefusal::TimedOut,
        ),
        outcome is Closed ==> res == Err::<RelayResponseHead, RelayRefusal>(
            RelayRefusal::SenderClosed,
        ),
        outcome is Undelivered ==> res == Err::<RelayResponseHead, RelayRefusal>(
            RelayRefusal::SenderUnreachable,
        ),
{
}

/// A relay's refusal has the HTTP status for it, and says what it is.
pub proof fn refusals_are_answered(refusal: RelayRefusal, status: u16, message: &'static str)
    requires
        call_ensures(RelayRefusal::status, (&refusal,), status),
        call_ensures(RelayRefusal::message, (&refusal,), message),
    ensures
        refusal == RelayRefusal::SessionNotFound ==> status == 404 && message@
            == "Beam relay session not found"@,
        refusal == RelayRefusal::InvalidSecret ==> status == 401 && message@
            == "Invalid relay session secret"@,
        refusal == RelayRefusal::Expired ==> status == 410 && message@
            == "Beam relay session expired"@,
        refusal == RelayRefusal::SenderMissing ==> status == 503 && message@
            == "Beam sender is not connected to the relay"@,
        refusal == RelayRefusal::SenderUnreachable ==> status == 502,
        refusal == RelayRefusal::SenderClosed ==> status == 502,
        refusal == RelayRefusal::TimedOut ==> status == 504 && message@
            == "Beam sender timed out"@,
{
}

/// A sender connects with the secret of the session and with nothing else.
pub proof fn only_the_secret_opens_a_session(
    session: RelaySession,
    secret: &str,
    known: Result<(), RelayRefusal>,
    unknown: Result<(), RelayRefusal>,
)
    requires
        call_ensures(session::admit_client, (Some(&session), secret), known),
        call_ensures(session::admit_client, (None, secret), unknown),
    ensures
        known is Ok <==> secret@ == session.secret@,
        secret@ != session.secret@ ==> known == Err::<(), RelayRefusal>(
            RelayRefusal::InvalidSecret,
        ),
        unknown == Err::<(), RelayRefusal>(RelayRefusal::SessionNotFound),
{
}

/// A request is passed on while the session lives and its sender is there; where it is not, the
/// time is looked at before the sender.
pub proof fn live_sessions_take_requests(
    session: RelaySession,
    now: u64,
    known: Result<(), RelayRefusal>,
    unknown: Result<(), RelayRefusal>,
)
    requires
        call_ensures(session::admit_request, (Some(&session), now), known),
        call_ensures(session::admit_request, (None, now), unknown),
    ensures
        known is Ok <==> now < session.expires_at_unix && session.connected,
        now >= session.expires_at_unix ==> known == Err::<(), RelayRefusal>(RelayRefusal::Expired),
        now < session.expires_at_unix && !session.connected ==> known == Err::<(), RelayRefusal>(
            RelayRefusal::SenderMissing,
        ),
        unknown == Err::<(), RelayRefusal>(RelayRefusal::SessionNotFound),
{
}

/// A visitor is given the sender's status, as long as it is one of HTTP, and each header that
/// HTTP can carry, and no other header.
pub proof fn visitor_gets_the_senders_head(
    head: RelayResponseHead,
    res: Option<(u16, HeaderMap<HeaderValue>)>,
    name: Seq<char>,
    value: Seq<u8>,
)
    requires
        call_ensures(session::public_head, (&head,), res),
        head.headers@.len() <= 6_554,
    ensures
        res matches Some((status, map)) && (100 <= head.status < 1000 ==> status == head.status)
            && (!(100 <= head.status < 1000) ==> status == 502) && (headers::header_entries(
            map,
        ).contains((name, value)) <==> exists|i: int|
            0 <= i < head.headers@.len() && headers::is_header_name(
                (#[trigger] head.headers@[i]).name@,
            ) && headers::is_header_value(head.headers@[i].value@) && headers::normal_name(
                head.headers@[i].name@,
            ) == name && vstd::utf8::encode_utf8(head.headers@[i].value@) == value),
{
    let pairs = relay_protocol::pair_views(head.headers@);
    headers::laws::maps_hold_the_valid_pairs(pairs, name, value);
    if exists|i: int|
        0 <= i < pairs.len() && headers::is_header_name((#[trigger] pairs[i]).0)
            && headers::is_header_value(pairs[i].1) && headers::normal_name(pairs[i].0) == name
            && vstd::utf8::encode_utf8(pairs[i].1) == value {
        let i = choose|i: int|
            0 <= i < pairs.len() && headers::is_header_name((#[trigger] pairs[i]).0)
                && headers::is_header_value(pairs[i].1) && headers::normal_name(pairs[i].0) == name
                && vstd::utf8::encode_utf8(pairs[i].1) == value;
        assert(pairs[i] == head.headers@[i]@);
    }
    if exists|i: int|
        0 <= i < head.headers@.len() && headers::is_header_name(
            (#[trigger] head.headers@[i]).name@,
        ) && headers::is_header_value(head.headers@[i].value@) && headers::normal_name(
            head.headers@[i].name@,
        ) == name && vstd::utf8::encode_utf8(head.headers@[i].value@) == value {
        let i = choose|i: int|
            0 <= i < head.headers@.len() && headers::is_header_name(
                (#[trigger] head.headers@[i]).name@,
            ) && headers::is_header_value(head.headers@[i].value@) && headers::normal_name(
                head.headers@[i].name@,
            ) == name && vstd::utf8::encode_utf8(head.headers@[i].value@) == value;
        assert(pairs[i] == head.headers@[i]@);
    }
}

/// A chunk of a body arrives with the visitor who waits for it, byte for byte, and with nobody
/// where nobody waits.
pub proof fn chunks_arrive_whole(
    session: RelaySession,
    request_id: u64,
    chunk: Seq<u8>,
    payload: &[u8],
    res: Result<Option<(u64, Vec<u8>)>, FrameTooShort>,
)
    requires
        call_ensures(RelaySession::handle_frame, (&session, payload), res),
        payload@ == relay_protocol::body_frame(request_id, chunk),
    ensures
        res matches Ok(found) && (found is Some <==> session.pending@.dom().contains(request_id))
            && (found matches Some((id, bytes)) ==> id == request_id && bytes@ == chunk),
{
    relay_protocol::frame_reads_back(request_id, chunk);
    if let Ok(found) = res {
        match found {
            Some((id, bytes)) => {
                relay_protocol::frames_are_unambiguous(request_id, chunk, id, bytes@);
                assert(session.pending@.dom().contains(request_id));
            },
            None => {
                let first = relay_protocol::big_endian(payload@.take(8));
                assert(first == request_id);
                assert(first as u64 == request_id);
            },
        }
    }
}

/// What comes over the sender's connection is treated as what it is: a frame for a request that
/// waits becomes a chunk for it, a message is delivered, and the connection ends with its end,
/// with a fault, and with what cannot be read.
pub proof fn socket_events_are_treated(
    before: RelaySession,
    after: RelaySession,
    event: SocketEvent,
    step: SocketStep,
    request_id: u64,
    chunk: Seq<u8>,
)
    requires
        after.reacted(before, event, step),
    ensures
        event is Control ==> step is Deliver,
        event is Closed || event is Failed || event is Unreadable ==> step is Stop,
        event is Other ==> step is Continue,
        !(event is Control) ==> after == before,
        event matches SocketEvent::Frame { payload } ==> {
            &&& payload@.len() < 8 <==> step is Stop
            &&& payload@ == relay_protocol::body_frame(request_id, chunk)
                ==> if before.pending@.dom().contains(
            request_id) {
                step matches SocketStep::Chunk { request_id: id, bytes } && id == request_id
                    && bytes@ == chunk
            } else {
                step is Continue
            }
        },
{
    if let SocketEvent::Frame { payload } = event {
        if payload@ == relay_protocol::body_frame(request_id, chunk) {
            relay_protocol::frame_reads_back(request_id, chunk);
            if let SocketStep::Chunk { request_id: id, bytes } = step {
                relay_protocol::frames_are_unambiguous(request_id, chunk, id, bytes@);
            }
        }
    }
}

/// Where the sender fails a request, the visitor is given the sender's message: behind a plain
/// head with its status, or behind what has come already.
pub proof fn failed_requests_are_explained(
    before: RelaySession,
    after: RelaySession,
    request_id: u64,
    status: u16,
    message: String,
    res: Delivery,
)
    requires
        before.pending@.dom().contains(request_id),
        after.took(
            before,
            ClientToRelayMessage::ResponseError { request_id, status, message },
            res,
        ),
    ensures
        res matches Delivery::Failure { response } && response.request_id == request_id
            && response.body@ == message@ && (if before.pending@[request_id] {
            response.head is None
        } else {
            response.head matches Some(head) && head.status == status
                && relay_protocol::pair_views(head.headers@) == seq![
                ("content-type"@, "text/plain; charset=utf-8"@),
            ]
        }),
        !after.pending@.dom().contains(request_id),
{
}

/// When the sender goes, everyone who waits is told so by a bad gateway, each of them once, and
/// nothing waits any longer.
pub proof fn nobody_waits_for_a_sender_who_has_gone(
    session: &mut RelaySession,
    failed: Vec<FailedResponse>,
    request_id: u64,
)
    requires
        old(session).well_formed(),
        call_ensures(RelaySession::disconnect, (session,), failed),
    ensures
        !final(session).connected,
        !final(session).pending@.dom().contains(request_id),
        old(session).pending@.dom().contains(request_id) <==> exists|i: int|
            0 <= i < failed@.len() && (#[trigger] failed@[i]).request_id == request_id,
        forall|i: int, j: int|
            0 <= i < j < failed@.len() ==> (#[trigger] failed@[i]).request_id != (
            #[trigger] failed@[j]).request_id,
        forall|i: int|
            0 <= i < failed@.len() ==> (#[trigger] failed@[i]).body@
                == "Beam sender disconnected from relay"@ && (failed@[i].head matches Some(head)
                ==> head.status == 502),
{
    let waiting = old(session).pending.entries@;
    assert(forall|i: int|
        0 <= i < failed@.len() ==> (#[trigger] failed@[i]).request_id == waiting[i].request_id);
    if old(session).pending@.dom().contains(request_id) {
        assert(pending::is_pending(waiting, request_id));
        let i = choose|i: int|
            0 <= i < waiting.len() && (#[trigger] waiting[i]).request_id == request_id;
        assert(failed@[i].request_id == request_id);
    }
    if exists|i: int| 0 <= i < failed@.len() && (#[trigger] failed@[i]).request_id == request_id {
        let i = choose|i: int|
            0 <= i < failed@.len() && (#[trigger] failed@[i]).request_id == request_id;
        assert(waiting[i].request_id == request_id);
    }
}

/// Visitors find a session at `s/` and its id below the base of the relay.
pub proof fn visitors_find_sessions<S>(
    state: RelayState<S>,
    public_id: &str,
    res: Option<String>,
)
    requires
        call_ensures(RelayState::<S>::public_url, (&state, public_id), res),
    ensures
        text::optional(res) == weburl::url_joined(state.public_base_url@, "s/"@ + public_id@),
{
}

/// The sender of a session connects at `v1/client/ws/` and its id below the base of the relay,
/// with the secret in the query, and over an encrypted connection where the relay has one.
pub proof fn senders_find_sessions<S>(
    state: RelayState<S>,
    public_id: &str,
    secret: &str,
    res: Option<String>,
    joined: Seq<char>,
    scheme: Seq<char>,
    host: Option<Seq<char>>,
    port: Option<u16>,
    written: Seq<char>,
)
    requires
        call_ensures(RelayState::<S>::websocket_url, (&state, public_id, secret), res),
        weburl::url_joined(state.public_base_url@, "v1/client/ws/"@ + public_id@) == Some(joined),
        weburl::url_parts(joined) == Ok::<
            (Seq<char>, Option<Seq<char>>, Option<u16>, Seq<char>),
            Seq<char>,
        >((scheme, host, port, written)),
    ensures
        res matches Some(url) ==> exists|changed: Seq<char>|
            weburl::url_rescheme(
                joined,
                if scheme == "https"@ {
                    "wss"@
                } else {
                    "ws"@
                },
            ) == Some(changed) && #[trigger] weburl::url_requery(changed, "secret="@ + secret@)
                == Some(url@),
{
}

/// An expired session is dropped by the first request that comes too late; no other refusal
/// drops one, and no other session is touched.
pub proof fn expired_sessions_are_dropped<S>(
    state: &mut RelayState<S>,
    public_id: &str,
    refusal: RelayRefusal,
    other: Seq<char>,
)
    requires
        call_ensures(RelayState::<S>::note_refusal, (state, public_id, refusal), ()),
    ensures
        refusal == RelayRefusal::Expired ==> !final(state).sessions@.dom().contains(public_id@),
        refusal != RelayRefusal::Expired ==> final(state).sessions@ == old(state).sessions@,
        other != public_id@ ==> final(state).sessions@.dom().contains(other)
            == old(state).sessions@.dom().contains(other),
{
}

/// A session that is put under an id is found under it, and no longer once it was taken out.
pub proof fn sessions_are_found_again<S>(
    registry: &mut Registry<S>,
    public_id: String,
    session: S,
    other: Seq<char>,
)
    requires
        call_ensures(Registry::<S>::insert, (registry, public_id, session), ()),
    ensures
        final(registry)@.dom().contains(public_id@),
        final(registry)@[public_id@] == session,
        other != public_id@ ==> final(registry)@.dom().contains(other)
            == old(registry)@.dom().contains(other),
        other != public_id@ && old(registry)@.dom().contains(other) ==> final(registry)@[other]
            == old(registry)@[other],
{
}

/// Two requests in a row have different ids.
pub proof fn requests_have_ids_of_their_own<S>(
    state: &mut RelayState<S>,
    first: u64,
    next: RelayState<S>,
)
    requires
        call_ensures(RelayState::<S>::take_request_id, (state,), first),
        next == *final(state),
    ensures
        first == old(state).next_request_id,
        next.next_request_id != first,
        next.next_request_id == first + 1 || first == u64::MAX,
        next.sessions == old(state).sessions,
{
    relay::ids_repeat_late(old(state).next_request_id, 0);
    relay::ids_repeat_late(old(state).next_request_id, 1);
}

/// A message of the sender reaches the visitor who waits for it, and nobody else: the head once
/// and as it is, then the end or the failure, after which nobody waits. What others wait for is
/// left alone.
pub proof fn messages_reach_their_visitor(
    session: &mut RelaySession,
    message: ClientToRelayMessage,
    res: Delivery,
    other: u64,
)
    requires
        call_ensures(RelaySession::handle_control, (session, message), res),
    ensures
        final(session).secret == old(session).secret,
        final(session).expires_at_unix == old(session).expires_at_unix,
        final(session).connected == old(session).connected,
        message matches ClientToRelayMessage::ResponseStart { request_id, status, headers } ==> {
            &&& res is Nothing <==> !(old(session).pending@.dom().contains(request_id)
                && !old(session).pending@[request_id])
            &&& res is Nothing ==> final(session).pending@ == old(session).pending@
            &&& !(res is Nothing) ==> (res matches Delivery::Head { request_id: id, head } && id
                == request_id && head.status == status && head.headers == headers) && final(
                session).pending@.dom().contains(request_id) && final(
                session).pending@[request_id]
            &&& other != request_id ==> final(session).pending@.dom().contains(other)
                == old(session).pending@.dom().contains(other)
        },
        message matches ClientToRelayMessage::ResponseEnd { request_id } ==> {
            &&& res is End <==> old(session).pending@.dom().contains(request_id)
            &&& res is Nothing <==> !old(session).pending@.dom().contains(request_id)
            &&& res matches Delivery::End { request_id: id } ==> id == request_id
            &&& !final(session).pending@.dom().contains(request_id)
            &&& other != request_id ==> final(session).pending@.dom().contains(other)
                == old(session).pending@.dom().contains(other)
        },
        message matches ClientToRelayMessage::ResponseError { request_id, status, message: why }
            ==> {
            &&& res is Failure <==> old(session).pending@.dom().contains(request_id)
            &&& res is Nothing <==> !old(session).pending@.dom().contains(request_id)
            &&& res matches Delivery::Failure { response } ==> response.request_id == request_id
                && response.body@ == why@ && (old(session).pending@[request_id] <==> response.head
                is None) && (response.head matches Some(head) ==> head.status == status)
            &&& !final(session).pending@.dom().contains(request_id)
            &&& other != request_id ==> final(session).pending@.dom().contains(other)
                == old(session).pending@.dom().contains(other)
        },
        message is SessionClose ==> res is Nothing && final(session).pending@
            == old(session).pending@,
{
}

/// What comes over the sender's connection is handled as what it is: a message as a message, a
/// frame as a chunk for the visitor who waits for it, and an end as the end.
pub proof fn connection_is_read_as_it_comes(
    session: &mut RelaySession,
    event: SocketEvent,
    step: SocketStep,
    request_id: u64,
    chunk: Seq<u8>,
)
    requires
        call_ensures(RelaySession::handle_event, (session, event), step),
    ensures
        event is Control <==> step is Deliver,
        event is Closed || event is Failed || event is Unreadable ==> step is Stop,
        event is Other ==> step is Continue,
        !(event is Control) ==> *final(session) == *old(session),
        event matches SocketEvent::Frame { payload } ==> {
            &&& payload@.len() < 8 <==> step is Stop
            &&& payload@ == relay_protocol::body_frame(request_id, chunk)
                ==> if old(session).pending@.dom().contains(request_id) {
                step matches SocketStep::Chunk { request_id: id, bytes } && id == request_id
                    && bytes@ == chunk
            } else {
                step is Continue
            }
        },
{
    socket_events_are_treated(*old(session), *final(session), event, step, request_id, chunk);
}

/// A new session waits for its sender and for nothing else; when the sender connects, the
/// secret, the expiry and what waits stay as they are.
pub proof fn sender_connects(
    secret: String,
    expires_at_unix: u64,
    made: RelaySession,
    session: &mut RelaySession,
)
    requires
        call_ensures(RelaySession::new, (secret, expires_at_unix), made),
        call_ensures(RelaySession::connect, (session,), ()),
    ensures
        made.secret == secret,
        made.expires_at_unix == expires_at_unix,
        !made.connected,
        made.pending@ == Map::<u64, bool>::empty(),
        final(session).connected,
        final(session).secret == old(session).secret,
        final(session).expires_at_unix == old(session).expires_at_unix,
        final(session).pending@ == old(session).pending@,
{
}

/// A session that was opened is told to its sender as it is: under its id, with its secret, and
/// with the two places where it is found. It stands under its id from then on, and all others
/// stand as before.
pub proof fn opened_session_stands<S, F: FnOnce(RelaySession) -> S>(
    state: &mut RelayState<S>,
    request: RelaySessionCreateRequest,
    public_id: String,
    secret: String,
    hold: F,
    res: Option<RelaySessionCreateResponse>,
    other: Seq<char>,
)
    requires
        call_ensures(
            RelayState::<S>::open_session::<F>,
            (state, &request, public_id, secret, hold),
            res,
        ),
    ensures
        res matches Some(made) ==> {
            &&& made.public_id@ == public_id@
            &&& made.secret@ == secret@
            &&& final(state).sessions@.dom().contains(public_id@)
            &&& weburl::url_joined(old(state).public_base_url@, "s/"@ + public_id@) == Some(
                made.public_url@,
            )
            &&& exists|session: RelaySession|
                hold.ensures((session,), final(state).sessions@[public_id@])
                    && #[trigger] session.well_formed() && session.secret@ == secret@
                    && session.expires_at_unix == request.expires_at_unix && !session.connected
        },
        res is None ==> final(state).sessions@ == old(state).sessions@,
        other != public_id@ ==> final(state).sessions@.dom().contains(other)
            == old(state).sessions@.dom().contains(other),
        other != public_id@ && old(state).sessions@.dom().contains(other)
            ==> final(state).sessions@[other] == old(state).sessions@[other],
{
}

/// A session is found under its own id for as long as it stands, and no longer once its sender
/// has gone; the others stay.
pub proof fn sessions_stand_until_closed<S>(
    state: RelayState<S>,
    wanted: &str,
    found: Option<&S>,
    closing: &mut RelayState<S>,
    public_id: &str,
    other: Seq<char>,
)
    requires
        call_ensures(RelayState::<S>::find, (&state, wanted), found),
        call_ensures(RelayState::<S>::close_session, (closing, public_id), ()),
    ensures
        found is Some <==> state.sessions@.dom().contains(wanted@),
        found matches Some(session) ==> *session == state.sessions@[wanted@],
        !final(closing).sessions@.dom().contains(public_id@),
        other != public_id@ ==> final(closing).sessions@.dom().contains(other)
            == old(closing).sessions@.dom().contains(other),
        other != public_id@ && old(closing).sessions@.dom().contains(other)
            ==> final(closing).sessions@[other] == old(closing).sessions@[other],
{
}

/// Senders find every session whose place can be written as a URL for messages, unless the URL
/// is beyond all measure.
pub proof fn every_sender_finds_its_session<S>(
    state: RelayState<S>,
    public_id: &str,
    secret: &str,
    res: Option<String>,
    joined: Seq<char>,
    scheme: Seq<char>,
    host: Option<Seq<char>>,
    port: Option<u16>,
    written: Seq<char>,
    changed: Seq<char>,
)
    requires
        call_ensures(RelayState::<S>::websocket_url, (&state, public_id, secret), res),
        weburl::url_joined(state.public_base_url@, "v1/client/ws/"@ + public_id@) == Some(joined),
        weburl::url_parts(joined) == Ok::<
            (Seq<char>, Option<Seq<char>>, Option<u16>, Seq<char>),
            Seq<char>,
        >((scheme, host, port, written)),
        weburl::url_rescheme(
            joined,
            if scheme == "https"@ {
                "wss"@
            } else {
                "ws"@
            },
        ) == Some(changed),
        written.len() <= 1_000_000,
        secret@.len() <= 1_000_000,
        weburl::url_parts(changed) matches Ok(parts) ==> parts.3.len() <= 1_000_000,
    ensures
        text::optional(res) == weburl::url_requery(changed, "secret="@ + secret@),
{
    reveal_strlit("secret=");
}

/// A session opens wherever both of its places can be written, and they are told as they are;
/// otherwise it does not.
pub proof fn session_opens_where_it_has_its_places<S, F: FnOnce(RelaySession) -> S>(
    state: &mut RelayState<S>,
    request: RelaySessionCreateRequest,
    public_id: String,
    secret: String,
    hold: F,
    res: Option<RelaySessionCreateResponse>,
    before: RelayState<S>,
    id_text: &str,
    secret_text: &str,
    public_url: Option<String>,
    websocket_url: Option<String>,
)
    requires
        before == *old(state),
        id_text@ == public_id@,
        secret_text@ == secret@,
        call_ensures(
            RelayState::<S>::open_session::<F>,
            (state, &request, public_id, secret, hold),
            res,
        ),
        call_ensures(RelayState::<S>::public_url, (&before, id_text), public_url),
        call_ensures(
            RelayState::<S>::websocket_url,
            (&before, id_text, secret_text),
            websocket_url,
        ),
    ensures
        res is Some <==> public_url is Some && websocket_url is Some,
        res matches Some(made) ==> text::optional(public_url) == Some(made.public_url@)
            && text::optional(websocket_url) == Some(made.websocket_url@),
        final(state).next_request_id == old(state).next_request_id,
        final(state).public_base_url == old(state).public_base_url,
{
}

/// A new relay has no sessions, and is found under the URL that it was given.
pub proof fn new_relay_is_empty<S>(public_base_url: String, state: RelayState<S>, id: Seq<char>)
    requires
        call_ensures(RelayState::<S>::new, (public_base_url,), state),
    ensures
        !state.sessions@.dom().contains(id),
        state.public_base_url == public_base_url,
{
}

/// Everyone who waits can be told the same thing, each of them once: behind a head of the given
/// status, or behind what has come already.
pub proof fn everyone_who_waits_is_told(
    session: &mut RelaySession,
    status: u16,
    message: &str,
    failed: Vec<FailedResponse>,
    i: int,
)
    requires
        call_ensures(RelaySession::fail_all_pending, (session, status, message), failed),
    ensures
        failed@.len() == old(session).pending.entries@.len(),
        final(session).pending@ == Map::<u64, bool>::empty(),
        final(session).connected == old(session).connected,
        final(session).secret == old(session).secret,
        0 <= i < failed@.len() ==> failed@[i].request_id
            == old(session).pending.entries@[i].request_id && failed@[i].body@ == message@ && (
        old(session).pending.entries@[i].head_sent <==> failed@[i].head is None) && (
        failed@[i].head matches Some(head) ==> head.status == status),
{
}

/// A session that a relay creates is one that it can find again: under a fresh id, with a fresh
/// secret, until the time that was asked for.
pub proof fn created_session_stands<S, F: FnOnce(RelaySession) -> S>(
    state: &mut RelayState<S>,
    request: RelaySessionCreateRequest,
    hold: F,
    res: Option<RelaySessionCreateResponse>,
    other: Seq<char>,
)
    requires
        call_ensures(RelayState::<S>::create_session::<F>, (state, request, hold), res),
    ensures
        res matches Some(made) ==> {
            &&& made.public_id@.len() == 32
            &&& made.secret@.len() == 32
            &&& final(state).sessions@.dom().contains(made.public_id@)
            &&& weburl::url_joined(old(state).public_base_url@, "s/"@ + made.public_id@) == Some(
                made.public_url@,
            )
            &&& exists|session: RelaySession|
                hold.ensures((session,), final(state).sessions@[made.public_id@])
                    && #[trigger] session.well_formed() && session.secret@ == made.secret@
                    && session.expires_at_unix == request.expires_at_unix && !session.connected
            &&& other != made.public_id@ ==> final(state).sessions@.dom().contains(other)
                == old(state).sessions@.dom().contains(other)
        },
        res is None ==> final(state).sessions@ == old(state).sessions@,
        final(state).next_request_id == old(state).next_request_id,
{
}

} // verus!
