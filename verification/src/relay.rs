//! The relay: it passes requests from the internet on to the sender of a session, and the
//! sender's answers back.
pub mod laws;
pub mod pending;
pub mod registry;
pub mod session;

use vstd::prelude::*;

use crate::access;
use crate::relay::registry::Registry;
use crate::relay::session::{RelayRefusal, RelaySession};
use crate::relay_protocol::{RelaySessionCreateRequest, RelaySessionCreateResponse};
use crate::text;
use crate::weburl;

verus! {

/// A relay with its sessions, each of which is held by an `S`.
#[derive(Debug)]
pub struct RelayState<S> {
    pub public_base_url: String,
    pub sessions: Registry<S>,
    pub next_request_id: u64,
}

/// A text as `access::generate_token` makes it.
pub open spec fn is_token(text: Seq<char>) -> bool {
    &&& text.len() == 32
    &&& forall|i: int| 0 <= i < text.len() ==> access::is_url_safe(#[trigger] text[i])
}

/// Where visitors find a session.
pub open spec fn public_address(base: Seq<char>, public_id: Seq<char>) -> Option<Seq<char>> {
    weburl::url_joined(base, "s/"@ + public_id)
}

/// The scheme of a connection for messages, for the scheme of the relay.
pub open spec fn socket_scheme(scheme: Seq<char>) -> Seq<char> {
    if scheme == "https"@ {
        "wss"@
    } else {
        "ws"@
    }
}

/// Where the sender of a session connects, with its secret; none where the base is no URL of a
/// place, or where the whole could not be counted in 32 bits.
pub open spec fn socket_address(
    base: Seq<char>,
    public_id: Seq<char>,
    secret: Seq<char>,
) -> Option<Seq<char>> {
    match weburl::url_joined(base, "v1/client/ws/"@ + public_id) {
        None => None,
        Some(joined) => match weburl::url_parts(joined) {
            Err(_) => None,
            Ok((scheme, _, _, _)) => if weburl::scheme_fits(joined) {
                match weburl::url_rescheme(joined, socket_scheme(scheme)) {
                    None => None,
                    Some(url) => if weburl::query_fits(url, "secret="@ + secret) {
                        weburl::url_requery(url, "secret="@ + secret)
                    } else {
                        None
                    },
                }
            } else {
                None
            },
        },
    }
}

/// The id that comes `count` requests after the given one; after the largest number the ids
/// begin again.
pub open spec fn id_after(id: u64, count: nat) -> u64 {
    ((id + count) % 0x1_0000_0000_0000_0000) as u64
}

impl RelaySessionCreateResponse {
    /// The public URL ends with the id of the session; the other one is for a connection of
    /// messages and ends with the secret.
    pub open spec fn leads_to_session(self) -> bool {
        &&& text::ends_with(self.public_url@, "/s/"@ + self.public_id@)
        &&& text::ends_with(self.websocket_url@, "?secret="@ + self.secret@)
        &&& text::starts_with(self.websocket_url@, "ws:"@) || text::starts_with(
            self.websocket_url@,
            "wss:"@,
        )
    }
}

impl<S> RelayState<S> {
    pub open spec fn well_formed(self) -> bool {
        self.sessions.well_formed()
    }

    pub fn new(public_base_url: String) -> (res: RelayState<S>)
        ensures
            res.well_formed(),
            res.public_base_url == public_base_url,
            res.sessions@ == Map::<Seq<char>, S>::empty(),
            res.next_request_id == 1,
    {
        RelayState { public_base_url, sessions: Registry::new(), next_request_id: 1 }
    }

    /// Where visitors find a session; none where the base is no URL of a place.
    pub fn public_url(&self, public_id: &str) -> (res: Option<String>)
        ensures
            text::optional(res) == public_address(self.public_base_url@, public_id@),
            weburl::is_web_url(self.public_base_url@) && is_token(public_id@) ==> (
            res matches Some(url) ==> text::ends_with(url@, "/s/"@ + public_id@)),
    {
        let mut path = "s/".to_string();
        path.append(public_id);
        proof {
            reveal_strlit("s/");
            reveal_strlit("/");
            reveal_strlit("/s/");
            if is_token(public_id@) {
                assert forall|i: int| 0 <= i < path@.len() implies weburl::is_plain(
                    #[trigger] path@[i],
                ) || path@[i] == '/' by {
                    if i >= 2 {
                        assert(path@[i] == public_id@[i - 2]);
                    }
                }
                assert("/"@ + path@ =~= "/s/"@ + public_id@);
            }
        }
        weburl::join_url(self.public_base_url.as_str(), path.as_str())
    }

    /// Where the sender of a session connects, with its secret.
    pub fn websocket_url(&self, public_id: &str, secret: &str) -> (res: Option<String>)
        ensures
            text::optional(res) == socket_address(self.public_base_url@, public_id@, secret@),
            weburl::is_web_url(self.public_base_url@) && is_token(public_id@) && is_token(secret@)
                ==> (res matches Some(url) ==> text::ends_with(url@, "?secret="@ + secret@)),
            res matches Some(url) ==> text::starts_with(url@, "ws:"@) || text::starts_with(
                url@,
                "wss:"@,
            ),
    {
        let mut path = "v1/client/ws/".to_string();
        path.append(public_id);
        proof {
            reveal_strlit("v1/client/ws/");
            if is_token(public_id@) {
                assert forall|i: int| 0 <= i < path@.len() implies weburl::is_plain(
                    #[trigger] path@[i],
                ) || path@[i] == '/' by {
                    if i >= 13 {
                        assert(path@[i] == public_id@[i - 13]);
                    }
                }
            }
        }
        let joined = match weburl::join_url(self.public_base_url.as_str(), path.as_str()) {
            Some(joined) => joined,
            None => return None,
        };
        let scheme = match weburl::read_url(joined.as_str()) {
            Ok(parts) => if text::same(parts.scheme.as_str(), "https") {
                "wss"
            } else {
                "ws"
            },
            Err(_) => return None,
        };
        if !weburl::has_scheme_room(joined.as_str()) {
            return None;
        }
        let url = match weburl::rescheme_url(joined.as_str(), scheme) {
            Some(url) => url,
            None => return None,
        };
        let mut query = "secret=".to_string();
        query.append(secret);
        if !weburl::has_query_room(url.as_str(), query.as_str()) {
            return None;
        }
        proof {
            reveal_strlit("ws");
            reveal_strlit("wss");
            reveal_strlit(":");
            reveal_strlit("ws:");
            reveal_strlit("wss:");
            assert("ws"@ + ":"@ =~= "ws:"@);
            assert("wss"@ + ":"@ =~= "wss:"@);
            reveal_strlit("secret=");
            reveal_strlit("?");
            reveal_strlit("?secret=");
            if is_token(secret@) {
                assert forall|i: int| 0 <= i < query@.len() implies weburl::is_plain(
                    #[trigger] query@[i],
                ) || query@[i] == '=' by {
                    if i >= 7 {
                        assert(query@[i] == secret@[i - 7]);
                    }
                }
                assert("?"@ + query@ =~= "?secret="@ + secret@);
            }
        }
        weburl::requery_url(url.as_str(), query.as_str())
    }

    /// The id of the next request; after the largest number the ids begin again.
    pub fn take_request_id(&mut self) -> (res: u64)
        ensures
            res == old(self).next_request_id,
            final(self).next_request_id == id_after(old(self).next_request_id, 1),
            final(self).sessions == old(self).sessions,
            final(self).public_base_url == old(self).public_base_url,
    {
        let request_id = self.next_request_id;
        self.next_request_id = if request_id == u64::MAX {
            0
        } else {
            request_id + 1
        };
        request_id
    }

    /// The session under this id.
    pub fn find(&self, public_id: &str) -> (res: Option<&S>)
        requires
            self.well_formed(),
        ensures
            match res {
                Some(session) => self.sessions@.dom().contains(public_id@)
                    && self.sessions@[public_id@] == *session,
                None => !self.sessions@.dom().contains(public_id@),
            },
    {
        self.sessions.find(public_id)
    }

    /// A session is over: its sender has gone.
    pub fn close_session(&mut self, public_id: &str)
        requires
            old(self).well_formed(),
        ensures
            final(self).well_formed(),
            final(self).sessions@ == old(self).sessions@.remove(public_id@),
            final(self).next_request_id == old(self).next_request_id,
            final(self).public_base_url == old(self).public_base_url,
    {
        self.sessions.remove(public_id);
    }

    /// A request for a session was turned away: an expired session is dropped.
    pub fn note_refusal(&mut self, public_id: &str, refusal: RelayRefusal)
        requires
            old(self).well_formed(),
        ensures
            final(self).well_formed(),
            final(self).sessions@ == (if refusal == RelayRefusal::Expired {
                old(self).sessions@.remove(public_id@)
            } else {
                old(self).sessions@
            }),
            final(self).next_request_id == old(self).next_request_id,
            final(self).public_base_url == old(self).public_base_url,
    {
        if let RelayRefusal::Expired = refusal {
            self.sessions.remove(public_id);
        }
    }

    /// Opens a session under an id and with a secret.
    pub fn open_session<F: FnOnce(RelaySession) -> S>(
        &mut self,
        request: &RelaySessionCreateRequest,
        public_id: String,
        secret: String,
        hold: F,
    ) -> (res: Option<RelaySessionCreateResponse>)
        requires
            old(self).well_formed(),
            forall|session: RelaySession| hold.requires((session,)),
        ensures
            final(self).well_formed(),
            final(self).next_request_id == old(self).next_request_id,
            final(self).public_base_url == old(self).public_base_url,
            match (
                public_address(old(self).public_base_url@, public_id@),
                socket_address(old(self).public_base_url@, public_id@, secret@),
            ) {
                (Some(public_url), Some(websocket_url)) => {
                    &&& res matches Some(made) && made.public_id@ == public_id@ && made.secret@
                        == secret@ && made.public_url@ == public_url && made.websocket_url@
                        == websocket_url
                    &&& final(self).sessions@.dom() == old(self).sessions@.dom().insert(public_id@)
                    &&& forall|id: Seq<char>|
                        old(self).sessions@.dom().contains(id) && id != public_id@
                            ==> #[trigger] final(self).sessions@[id] == old(self).sessions@[id]
                    &&& exists|session: RelaySession|
                        hold.ensures((session,), final(self).sessions@[public_id@])
                            && #[trigger] session.well_formed() && session.secret@ == secret@
                            && session.expires_at_unix == request.expires_at_unix
                            && !session.connected
                },
                _ => res is None && final(self).sessions == old(self).sessions,
            },
            weburl::is_web_url(old(self).public_base_url@) && is_token(public_id@) && is_token(
                secret@,
            ) ==> (res matches Some(made) ==> made.leads_to_session()),
    {
        let public_url = match self.public_url(public_id.as_str()) {
            Some(url) => url,
            None => return None,
        };
        let websocket_url = match self.websocket_url(public_id.as_str(), secret.as_str()) {
            Some(url) => url,
            None => return None,
        };
        let session = RelaySession::new(secret.clone(), request.expires_at_unix);
        assert(session.well_formed());
        let held = hold(session);
        self.sessions.insert(public_id.clone(), held);
        Some(RelaySessionCreateResponse { public_id, public_url, websocket_url, secret })
    }

    /// Opens a session under a random id and with a random secret.
    pub fn create_session<F: FnOnce(RelaySession) -> S>(
        &mut self,
        request: RelaySessionCreateRequest,
        hold: F,
    ) -> (res: Option<RelaySessionCreateResponse>)
        requires
            old(self).well_formed(),
            forall|session: RelaySession| hold.requires((session,)),
        ensures
            final(self).well_formed(),
            final(self).next_request_id == old(self).next_request_id,
            final(self).public_base_url == old(self).public_base_url,
            res is None ==> final(self).sessions == old(self).sessions && exists|
                public_id: Seq<char>,
                secret: Seq<char>,
            |
                #![trigger socket_address(old(self).public_base_url@, public_id, secret)]
                is_token(public_id) && is_token(secret) && (public_address(
                    old(self).public_base_url@,
                    public_id,
                ) is None || socket_address(
                    old(self).public_base_url@,
                    public_id,
                    secret,
                ) is None),
            res matches Some(made) ==> {
                &&& is_token(made.public_id@)
                &&& is_token(made.secret@)
                &&& weburl::is_web_url(old(self).public_base_url@) ==> made.leads_to_session()
                &&& public_address(old(self).public_base_url@, made.public_id@) == Some(
                    made.public_url@,
                )
                &&& socket_address(old(self).public_base_url@, made.public_id@, made.secret@)
                    == Some(made.websocket_url@)
                &&& final(self).sessions@.dom() == old(self).sessions@.dom().insert(made.public_id@)
                &&& forall|id: Seq<char>|
                    old(self).sessions@.dom().contains(id) && id != made.public_id@
                        ==> #[trigger] final(self).sessions@[id] == old(self).sessions@[id]
                &&& exists|session: RelaySession|
                    hold.ensures((session,), final(self).sessions@[made.public_id@])
                        && #[trigger] session.well_formed() && session.secret@ == made.secret@
                        && session.expires_at_unix == request.expires_at_unix && !session.connected
            },
    {
        let public_id = access::generate_token();
        let secret = access::generate_token();
        self.open_session(&request, public_id, secret, hold)
    }
}

/// Ids follow one another, and none comes again before all others have come.
pub proof fn ids_repeat_late(id: u64, count: nat)
    ensures
        id_after(id_after(id, count), 1) == id_after(id, count + 1),
        0 < count < 0x1_0000_0000_0000_0000 ==> id_after(id, count) != id,
{
    let all = 0x1_0000_0000_0000_0000int;
    let sum = id + count;
    vstd::arithmetic::div_mod::lemma_fundamental_div_mod(sum, all);
    vstd::arithmetic::div_mod::lemma_add_mod_noop(sum, 1, all);
    vstd::arithmetic::div_mod::lemma_small_mod(1, all as nat);
    vstd::arithmetic::div_mod::lemma_mod_bound(sum, all);
    vstd::arithmetic::div_mod::lemma_mod_bound(sum + 1, all);
    if 0 < count < all {
        if sum < all {
            vstd::arithmetic::div_mod::lemma_small_mod(sum as nat, all as nat);
        } else {
            vstd::arithmetic::div_mod::lemma_mod_add_multiples_vanish(sum - all, all);
            vstd::arithmetic::div_mod::lemma_small_mod((sum - all) as nat, all as nat);
        }
    }
}

} // verus!
