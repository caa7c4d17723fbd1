//! One session of a relay: the sender's connection and the requests that wait for an answer.
use vstd::prelude::*;

use axum::http::{HeaderMap, HeaderValue};

use crate::headers;
use crate::headers::HeaderRule;
use crate::relay::pending;
use crate::relay::pending::PendingTable;
use crate::relay_protocol;
use crate::relay_protocol::{
    ClientToRelayMessage, FrameTooShort, HeaderPair, RelayToClientMessage,
};
use crate::text;

verus! {

/// How long the sender may take for the head of an answer, in seconds.
pub const HEAD_TIMEOUT_SECS: u64 = 30;

/// The status for answers that the sender does not give.
pub const BAD_GATEWAY: u16 = 502;

/// The body of the answers that are lost with the sender's connection.
pub const SENDER_DISCONNECTED: &'static str = "Beam sender disconnected from relay";

/// Why a relay turns a request away.
#[derive(Clone, Copy, Debug, PartialEq, Eq, Structural)]
pub enum RelayRefusal {
    SessionNotFound,
    InvalidSecret,
    Expired,
    SenderMissing,
    SenderUnreachable,
    SenderClosed,
    TimedOut,
}

impl RelayRefusal {
    /// The HTTP status of the answer.
    pub fn status(&self) -> (res: u16)
        ensures
            res == match *self {
                RelayRefusal::SessionNotFound => 404u16,
                RelayRefusal::InvalidSecret => 401,
                RelayRefusal::Expired => 410,
                RelayRefusal::SenderMissing => 503,
                RelayRefusal::SenderUnreachable => 502,
                RelayRefusal::SenderClosed => 502,
                RelayRefusal::TimedOut => 504,
            },
    {
        match self {
            RelayRefusal::SessionNotFound => 404,
            RelayRefusal::InvalidSecret => 401,
            RelayRefusal::Expired => 410,
            RelayRefusal::SenderMissing => 503,
            RelayRefusal::SenderUnreachable => 502,
            RelayRefusal::SenderClosed => 502,
            RelayRefusal::TimedOut => 504,
        }
    }

    /// The body of the answer.
    pub fn message(&self) -> (res: &'static str)
        ensures
            res@ == match *self {
                RelayRefusal::SessionNotFound => "Beam relay session not found"@,
                RelayRefusal::InvalidSecret => "Invalid relay session secret"@,
                RelayRefusal::Expired => "Beam relay session expired"@,
                RelayRefusal::SenderMissing => "Beam sender is not connected to the relay"@,
                RelayRefusal::SenderUnreachable => "Beam relay could not reach the sender"@,
                RelayRefusal::SenderClosed => "Beam sender closed the relay request"@,
                RelayRefusal::TimedOut => "Beam sender timed out"@,
            },
    {
        match self {
            RelayRefusal::SessionNotFound => "Beam relay session not found",
            RelayRefusal::InvalidSecret => "Invalid relay session secret",
            RelayRefusal::Expired => "Beam relay session expired",
            RelayRefusal::SenderMissing => "Beam sender is not connected to the relay",
            RelayRefusal::SenderUnreachable => "Beam relay could not reach the sender",
            RelayRefusal::SenderClosed => "Beam sender closed the relay request",
            RelayRefusal::TimedOut => "Beam sender timed out",
        }
    }
}

/// A session of a relay.
#[derive(Debug)]
pub struct RelaySession {
    pub secret: String,
    pub expires_at_unix: u64,
    /// The sender is connected.
    pub connected: bool,
    pub pending: PendingTable,
}

/// The status and the headers of an answer.
#[derive(Debug)]
pub struct RelayResponseHead {
    pub status: u16,
    pub headers: Vec<HeaderPair>,
}

impl View for RelayResponseHead {
    type V = (u16, Seq<(Seq<char>, Seq<char>)>);

    open spec fn view(&self) -> (u16, Seq<(Seq<char>, Seq<char>)>) {
        (self.status, relay_protocol::pair_views(self.headers@))
    }
}

/// The head of an answer that the relay gives in place of the sender.
pub open spec fn plain_head(status: u16) -> (u16, Seq<(Seq<char>, Seq<char>)>) {
    (status, seq![("content-type"@, "text/plain; charset=utf-8"@)])
}

fn make_plain_head(status: u16) -> (res: RelayResponseHead)
    ensures
        res@ == plain_head(status),
{
    let mut headers: Vec<HeaderPair> = Vec::new();
    headers.push(
        HeaderPair {
            name: "content-type".to_string(),
            value: "text/plain; charset=utf-8".to_string(),
        },
    );
    assert(relay_protocol::pair_views(headers@)
        =~= seq![("content-type"@, "text/plain; charset=utf-8"@)]);
    RelayResponseHead { status, headers }
}

/// An answer that comes to its end with a message: with a head where none has come yet.
#[derive(Debug)]
pub struct FailedResponse {
    pub request_id: u64,
    pub head: Option<RelayResponseHead>,
    pub body: String,
}

impl FailedResponse {
    /// The answer for a request, with a head unless one has been sent.
    pub open spec fn closes(
        self,
        request_id: u64,
        head_sent: bool,
        status: u16,
        message: Seq<char>,
    ) -> bool {
        &&& self.request_id == request_id
        &&& self.body@ == message
        &&& if head_sent {
            self.head is None
        } else {
            self.head matches Some(head) && head@ == plain_head(status)
        }
    }
}

fn fail_request(request_id: u64, head_sent: bool, status: u16, message: &str) -> (res:
    FailedResponse)
    ensures
        res.closes(request_id, head_sent, status, message@),
{
    FailedResponse {
        request_id,
        head: if head_sent {
            None
        } else {
            Some(make_plain_head(status))
        },
        body: message.to_string(),
    }
}

/// What the visitor who waits for an answer is given.
#[derive(Debug)]
pub enum Delivery {
    Nothing,
    Head { request_id: u64, head: RelayResponseHead },
    /// The answer is complete.
    End { request_id: u64 },
    Failure { response: FailedResponse },
}

/// What comes over the sender's connection.
#[derive(Debug)]
pub enum SocketEvent {
    Control { message: ClientToRelayMessage },
    /// A text that is no message.
    Unreadable,
    Frame { payload: Vec<u8> },
    Closed,
    Failed,
    /// Anything that keeps the connection alive.
    Other,
}

/// What is done with it.
#[derive(Debug)]
pub enum SocketStep {
    Deliver { delivery: Delivery },
    /// A chunk of the body goes to the visitor who waits for it.
    Chunk { request_id: u64, bytes: Vec<u8> },
    Continue,
    /// The connection is over.
    Stop,
}

/// What came of waiting for the head of an answer.
#[derive(Debug)]
pub enum HeadOutcome {
    Head { head: RelayResponseHead },
    /// The request could not be handed to the sender.
    Undelivered,
    /// The sender gave the request up.
    Closed,
    TimedOut,
}

/// Whether a sender may connect to a session with this secret.
pub fn admit_client(session: Option<&RelaySession>, secret: &str) -> (res: Result<
    (),
    RelayRefusal,
>)
    ensures
        res == match session {
            None => Err(RelayRefusal::SessionNotFound),
            Some(session) => if session.secret@ == secret@ {
                Ok(())
            } else {
                Err(RelayRefusal::InvalidSecret)
            },
        },
{
    match session {
        None => Err(RelayRefusal::SessionNotFound),
        Some(session) => if text::same(session.secret.as_str(), secret) {
            Ok(())
        } else {
            Err(RelayRefusal::InvalidSecret)
        },
    }
}

/// Why a request from the internet is turned away at the time `now`, in seconds since 1970.
pub open spec fn request_refusal(session: Option<RelaySession>, now: u64) -> Option<RelayRefusal> {
    match session {
        None => Some(RelayRefusal::SessionNotFound),
        Some(session) => if session.expires_at_unix <= now {
            Some(RelayRefusal::Expired)
        } else if !session.connected {
            Some(RelayRefusal::SenderMissing)
        } else {
            None
        },
    }
}

/// Whether a request from the internet is passed on at the time `now`.
pub fn admit_request(session: Option<&RelaySession>, now: u64) -> (res: Result<(), RelayRefusal>)
    ensures
        res == match session {
            None => Err::<(), RelayRefusal>(RelayRefusal::SessionNotFound),
            Some(found) => match request_refusal(Some(*found), now) {
                Some(refusal) => Err(refusal),
                None => Ok(()),
            },
        },
{
    let session = match session {
        Some(session) => session,
        None => return Err(RelayRefusal::SessionNotFound),
    };
    if session.expires_at_unix <= now {
        return Err(RelayRefusal::Expired);
    }
    if !session.connected {
        return Err(RelayRefusal::SenderMissing);
    }
    Ok(())
}

impl RelaySession {
    /// Each request waits under an id of its own, and none waits without a sender.
    pub open spec fn well_formed(self) -> bool {
        &&& self.pending.well_formed()
        &&& !self.connected ==> self.pending@ == Map::<u64, bool>::empty()
    }

    /// `self` is `before` but for the requests that wait.
    pub open spec fn same_terms(self, before: RelaySession) -> bool {
        &&& self.secret == before.secret
        &&& self.expires_at_unix == before.expires_at_unix
    }

    pub fn new(secret: String, expires_at_unix: u64) -> (res: RelaySession)
        ensures
            res.well_formed(),
            res.secret == secret,
            res.expires_at_unix == expires_at_unix,
            !res.connected,
            res.pending@ == Map::<u64, bool>::empty(),
    {
        RelaySession { secret, expires_at_unix, connected: false, pending: PendingTable::new() }
    }

    /// The sender has connected.
    pub fn connect(&mut self)
        requires
            old(self).well_formed(),
        ensures
            final(self).well_formed(),
            final(self).same_terms(*old(self)),
            final(self).connected,
            final(self).pending == old(self).pending,
    {
        self.connected = true;
    }

    /// The message that passes a request on to the sender; from then on the request waits.
    pub fn begin_request(
        &mut self,
        request_id: u64,
        path: String,
        query: Option<String>,
        headers: &HeaderMap<HeaderValue>,
    ) -> (res: RelayToClientMessage)
        requires
            old(self).well_formed(),
            old(self).connected,
        ensures
            final(self).well_formed(),
            final(self).same_terms(*old(self)),
            final(self).connected,
            final(self).pending@ == old(self).pending@.insert(request_id, false),
            res matches RelayToClientMessage::RequestStart {
                request_id: id,
                method,
                path: asked,
                query: asked_query,
                headers: pairs,
            } && id == request_id && method@ == "GET"@ && asked == path && asked_query == query
                && relay_protocol::pair_views(pairs@) == headers::passed_on(
                headers::header_entries(*headers),
                HeaderRule::Request,
            ),
    {
        self.pending.insert(request_id, false);
        RelayToClientMessage::RequestStart {
            request_id,
            method: "GET".to_string(),
            path,
            query,
            headers: headers::headers_to_pairs(headers, HeaderRule::Request),
        }
    }

    /// What the visitor is answered once it is known what came of waiting for the head. A
    /// request that is answered by the relay itself does not wait any longer.
    pub fn conclude(&mut self, request_id: u64, outcome: HeadOutcome) -> (res: Result<
        RelayResponseHead,
        RelayRefusal,
    >)
        requires
            old(self).well_formed(),
        ensures
            final(self).well_formed(),
            final(self).same_terms(*old(self)),
            final(self).connected == old(self).connected,
            outcome is Head ==> final(self).pending@ == old(self).pending@,
            !(outcome is Head) ==> final(self).pending@ == old(self).pending@.remove(request_id),
            res == match outcome {
                HeadOutcome::Head { head } => Ok::<RelayResponseHead, RelayRefusal>(head),
                HeadOutcome::Undelivered => Err(RelayRefusal::SenderUnreachable),
                HeadOutcome::Closed => Err(RelayRefusal::SenderClosed),
                HeadOutcome::TimedOut => Err(RelayRefusal::TimedOut),
            },
    {
        let refusal = match outcome {
            HeadOutcome::Head { head } => return Ok(head),
            HeadOutcome::Undelivered => RelayRefusal::SenderUnreachable,
            HeadOutcome::Closed => RelayRefusal::SenderClosed,
            HeadOutcome::TimedOut => RelayRefusal::TimedOut,
        };
        let _ = self.pending.remove(request_id);
        assert(!self.connected ==> self.pending@ =~= Map::<u64, bool>::empty());
        Err(refusal)
    }

    /// `res` is what the visitor is given for a message of the sender, and `self` is `before`
    /// after that message: a head is passed on once, and an answer that is complete or has
    /// failed does not wait any longer.
    pub open spec fn took(
        self,
        before: RelaySession,
        message: ClientToRelayMessage,
        res: Delivery,
    ) -> bool {
        let waiting = before.pending@;
        &&& self.same_terms(before)
        &&& self.connected == before.connected
        &&& match message {
            ClientToRelayMessage::ResponseStart { request_id, status, headers } => {
                if waiting.dom().contains(request_id) && !waiting[request_id] {
                    &&& self.pending@ == waiting.insert(request_id, true)
                    &&& res == (Delivery::Head {
                        request_id,
                        head: RelayResponseHead { status, headers },
                    })
                } else {
                    &&& self.pending@ == waiting
                    &&& res is Nothing
                }
            },
            ClientToRelayMessage::ResponseEnd { request_id } => {
                &&& self.pending@ == waiting.remove(request_id)
                &&& if waiting.dom().contains(request_id) {
                    res == (Delivery::End { request_id })
                } else {
                    res is Nothing
                }
            },
            ClientToRelayMessage::ResponseError { request_id, status, message: reason } => {
                &&& self.pending@ == waiting.remove(request_id)
                &&& if waiting.dom().contains(request_id) {
                    res matches Delivery::Failure { response } && response.closes(
                        request_id,
                        waiting[request_id],
                        status,
                        reason@,
                    )
                } else {
                    res is Nothing
                }
            },
            ClientToRelayMessage::SessionClose { .. } => {
                &&& self.pending@ == waiting
                &&& res is Nothing
            },
        }
    }

    /// Takes a message of the sender.
    pub fn handle_control(&mut self, message: ClientToRelayMessage) -> (res: Delivery)
        requires
            old(self).well_formed(),
        ensures
            final(self).well_formed(),
            final(self).took(*old(self), message, res),
    {
        let ghost waiting = self.pending@;
        match message {
            ClientToRelayMessage::ResponseStart { request_id, status, headers } => {
                match self.pending.get(request_id) {
                    Some(false) => {
                        self.pending.insert(request_id, true);
                        Delivery::Head { request_id, head: RelayResponseHead { status, headers } }
                    },
                    _ => Delivery::Nothing,
                }
            },
            ClientToRelayMessage::ResponseEnd { request_id } => {
                let removed = self.pending.remove(request_id);
                assert(!self.connected ==> self.pending@ =~= Map::<u64, bool>::empty());
                match removed {
                    Some(_) => Delivery::End { request_id },
                    None => Delivery::Nothing,
                }
            },
            ClientToRelayMessage::ResponseError { request_id, status, message: reason } => {
                let removed = self.pending.remove(request_id);
                assert(!self.connected ==> self.pending@ =~= Map::<u64, bool>::empty());
                match removed {
                    Some(head_sent) => Delivery::Failure {
                        response: fail_request(request_id, head_sent, status, reason.as_str()),
                    },
                    None => Delivery::Nothing,
                }
            },
            ClientToRelayMessage::SessionClose { .. } => Delivery::Nothing,
        }
    }

    /// The chunk in a frame of the sender, where the request that it belongs to waits.
    pub fn handle_frame(&self, payload: &[u8]) -> (res: Result<
        Option<(u64, Vec<u8>)>,
        FrameTooShort,
    >)
        requires
            self.well_formed(),
        ensures
            res is Err <==> payload@.len() < 8,
            res matches Ok(found) ==> {
                let request_id = relay_protocol::big_endian(payload@.take(8));
                match found {
                    Some((id, chunk)) => id == request_id && self.pending@.dom().contains(id)
                        && payload@ == relay_protocol::body_frame(id, chunk@),
                    None => !self.pending@.dom().contains(request_id as u64) && forall|id: u64|
                        id == request_id ==> !self.pending@.dom().contains(id),
                }
            },
    {
        match relay_protocol::decode_body_chunk(payload) {
            Err(error) => Err(error),
            Ok((request_id, chunk)) => match self.pending.get(request_id) {
                Some(_) => Ok(Some((request_id, chunk))),
                None => Ok(None),
            },
        }
    }

    /// `res` is what is done with what came over the sender's connection, and `self` is `before`
    /// after it.
    pub open spec fn reacted(
        self,
        before: RelaySession,
        event: SocketEvent,
        res: SocketStep,
    ) -> bool {
        match event {
            SocketEvent::Control { message } => res matches SocketStep::Deliver { delivery }
                && self.took(before, message, delivery),
            SocketEvent::Frame { payload } => {
                &&& self == before
                &&& if payload@.len() < 8 {
                    res is Stop
                } else {
                    let request_id = relay_protocol::big_endian(payload@.take(8));
                    match res {
                        SocketStep::Chunk { request_id: id, bytes } => id == request_id
                            && before.pending@.dom().contains(id) && payload@
                            == relay_protocol::body_frame(id, bytes@),
                        SocketStep::Continue => forall|id: u64|
                            id == request_id ==> !before.pending@.dom().contains(id),
                        _ => false,
                    }
                }
            },
            SocketEvent::Other => self == before && res is Continue,
            SocketEvent::Unreadable => self == before && res is Stop,
            SocketEvent::Closed => self == before && res is Stop,
            SocketEvent::Failed => self == before && res is Stop,
        }
    }

    /// Takes what came over the sender's connection.
    pub fn handle_event(&mut self, event: SocketEvent) -> (res: SocketStep)
        requires
            old(self).well_formed(),
        ensures
            final(self).well_formed(),
            final(self).reacted(*old(self), event, res),
    {
        match event {
            SocketEvent::Control { message } => {
                let delivery = self.handle_control(message);
                SocketStep::Deliver { delivery }
            },
            SocketEvent::Frame { payload } => match self.handle_frame(payload.as_slice()) {
                Ok(Some((request_id, bytes))) => SocketStep::Chunk { request_id, bytes },
                Ok(None) => SocketStep::Continue,
                Err(_) => SocketStep::Stop,
            },
            SocketEvent::Other => SocketStep::Continue,
            SocketEvent::Unreadable => SocketStep::Stop,
            SocketEvent::Closed => SocketStep::Stop,
            SocketEvent::Failed => SocketStep::Stop,
        }
    }

    /// Ends every request that waits with a message.
    pub fn fail_all_pending(&mut self, status: u16, message: &str) -> (res: Vec<FailedResponse>)
        requires
            old(self).well_formed(),
        ensures
            final(self).well_formed(),
            final(self).same_terms(*old(self)),
            final(self).connected == old(self).connected,
            final(self).pending@ == Map::<u64, bool>::empty(),
            all_failed(old(self).pending.entries@, res@, status, message@),
    {
        let mut failed: Vec<FailedResponse> = Vec::new();
        let mut i: usize = 0;
        while i < self.pending.entries.len()
            invariant
                *self == *old(self),
                i <= self.pending.entries@.len(),
                all_failed(self.pending.entries@.take(i as int), failed@, status, message@),
            decreases self.pending.entries@.len() - i,
        {
            let entry = self.pending.entries[i];
            failed.push(fail_request(entry.request_id, entry.head_sent, status, message));
            i = i + 1;
        }
        assert(self.pending.entries@.take(i as int) =~= self.pending.entries@);
        self.pending = PendingTable::new();
        failed
    }

    /// The sender has gone: nothing waits for it any longer.
    pub fn disconnect(&mut self) -> (res: Vec<FailedResponse>)
        requires
            old(self).well_formed(),
        ensures
            final(self).well_formed(),
            final(self).same_terms(*old(self)),
            !final(self).connected,
            final(self).pending@ == Map::<u64, bool>::empty(),
            all_failed(
                old(self).pending.entries@,
                res@,
                BAD_GATEWAY,
                SENDER_DISCONNECTED@,
            ),
    {
        let failed = self.fail_all_pending(BAD_GATEWAY, SENDER_DISCONNECTED);
        self.connected = false;
        failed
    }
}

/// Each request that waits has its answer.
pub open spec fn all_failed(
    waiting: Seq<pending::PendingResponse>,
    failed: Seq<FailedResponse>,
    status: u16,
    message: Seq<char>,
) -> bool {
    &&& failed.len() == waiting.len()
    &&& forall|i: int|
        0 <= i < failed.len() ==> (#[trigger] failed[i]).closes(
            waiting[i].request_id,
            waiting[i].head_sent,
            status,
            message,
        )
}

/// The status of the answer to the visitor: the sender's, where it is one.
pub open spec fn public_status(status: u16) -> u16 {
    if 100 <= status < 1000 {
        status
    } else {
        BAD_GATEWAY
    }
}

/// The status and the headers with which the visitor is answered; none where there are more
/// headers than an answer can hold.
pub fn public_head(head: &RelayResponseHead) -> (res: Option<(u16, HeaderMap<HeaderValue>)>)
    ensures
        res matches Some((status, map)) ==> status == public_status(head.status)
            && headers::header_entries(map) == headers::filled(
            relay_protocol::pair_views(head.headers@),
        ),
        head.headers@.len() <= headers::ROOM ==> res is Some,
{
    let status: u16 = if 100 <= head.status && head.status < 1000 {
        head.status
    } else {
        BAD_GATEWAY
    };
    match headers::pairs_to_headers(&head.headers) {
        Some(map) => Some((status, map)),
        None => None,
    }
}

/// The answer to a request reaches the visitor: the head as the sender gave it, then the end;
/// and nothing else has changed for the session.
pub proof fn answer_reaches_visitor(
    idle: RelaySession,
    asked: RelaySession,
    answered: RelaySession,
    done: RelaySession,
    request_id: u64,
    status: u16,
    headers: Vec<HeaderPair>,
    first: Delivery,
    second: Delivery,
)
    requires
        !idle.pending@.dom().contains(request_id),
        asked.pending@ == idle.pending@.insert(request_id, false),
        answered.took(
            asked,
            ClientToRelayMessage::ResponseStart { request_id, status, headers },
            first,
        ),
        done.took(answered, ClientToRelayMessage::ResponseEnd { request_id }, second),
    ensures
        first == (Delivery::Head { request_id, head: RelayResponseHead { status, headers } }),
        answered.pending@.dom().contains(request_id),
        second == (Delivery::End { request_id }),
        done.pending@ == idle.pending@,
{
    assert(done.pending@ =~= idle.pending@);
}

/// A head is passed on once: a second one for the same request is passed over.
pub proof fn head_is_sent_once(
    first: RelaySession,
    second: RelaySession,
    third: RelaySession,
    request_id: u64,
    message: ClientToRelayMessage,
    delivered: Delivery,
    later: ClientToRelayMessage,
    answer: Delivery,
)
    requires
        message matches ClientToRelayMessage::ResponseStart { request_id: id, .. } && id
            == request_id,
        second.took(first, message, delivered),
        later matches ClientToRelayMessage::ResponseStart { request_id: id, .. } && id
            == request_id,
        third.took(second, later, answer),
    ensures
        answer is Nothing,
        third.pending@ == second.pending@,
{
}

/// After the end of an answer, whether it is complete or has failed, nothing more comes for
/// its request.
pub proof fn answer_ends_once(
    first: RelaySession,
    second: RelaySession,
    third: RelaySession,
    request_id: u64,
    message: ClientToRelayMessage,
    delivered: Delivery,
    later: ClientToRelayMessage,
    answer: Delivery,
)
    requires
        match message {
            ClientToRelayMessage::ResponseEnd { request_id: id } => id == request_id,
            ClientToRelayMessage::ResponseError { request_id: id, .. } => id == request_id,
            _ => false,
        },
        second.took(first, message, delivered),
        match later {
            ClientToRelayMessage::ResponseStart { request_id: id, .. } => id == request_id,
            ClientToRelayMessage::ResponseEnd { request_id: id } => id == request_id,
            ClientToRelayMessage::ResponseError { request_id: id, .. } => id == request_id,
            ClientToRelayMessage::SessionClose { .. } => true,
        },
        third.took(second, later, answer),
    ensures
        answer is Nothing,
{
}

/// A message for one request leaves all others as they were.
pub proof fn requests_do_not_interfere(
    before: RelaySession,
    after: RelaySession,
    request_id: u64,
    other: u64,
    message: ClientToRelayMessage,
    delivered: Delivery,
)
    requires
        after.took(before, message, delivered),
        match message {
            ClientToRelayMessage::ResponseStart { request_id: id, .. } => id == request_id,
            ClientToRelayMessage::ResponseEnd { request_id: id } => id == request_id,
            ClientToRelayMessage::ResponseError { request_id: id, .. } => id == request_id,
            ClientToRelayMessage::SessionClose { .. } => true,
        },
        other != request_id,
    ensures
        after.pending@.dom().contains(other) == before.pending@.dom().contains(other),
        before.pending@.dom().contains(other) ==> after.pending@[other] == before.pending@[other],
{
}

} // verus!
