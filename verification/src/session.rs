//! A session: what it shows, whom it admits, and what becomes of it when a download ends.
pub mod answers;
pub mod download;
pub mod laws;
pub mod range;
pub mod steps;

use vstd::prelude::*;

use crate::access::AccessPolicy;
use crate::content::ContentSource;
use crate::duration;
use crate::duration::{Duration, Timestamp};
use crate::provider::ProviderKind;
use crate::text;

verus! {

/// The mode that was asked for.
#[derive(Clone, Copy, Debug, PartialEq, Eq, Structural)]
pub enum RequestedSendMode {
    Global { provider: ProviderKind },
    Local { base_port: Option<u16> },
}

/// The mode in which a session runs.
#[derive(Clone, Copy, Debug, PartialEq, Eq, Structural)]
pub enum ResolvedSendMode {
    Global { provider: ProviderKind },
    Local { http_port: u16, https_port: u16 },
}

impl ResolvedSendMode {
    pub fn is_local(&self) -> (res: bool)
        ensures
            res == (*self is Local),
    {
        match self {
            ResolvedSendMode::Global { .. } => false,
            ResolvedSendMode::Local { .. } => true,
        }
    }

    /// What the first link is called.
    pub open spec fn primary_label(self) -> Seq<char> {
        match self {
            ResolvedSendMode::Global { .. } => "Public HTTPS"@,
            ResolvedSendMode::Local { .. } => "Primary (No Warnings)"@,
        }
    }

    pub fn primary_link_label(&self) -> (res: &'static str)
        ensures
            res@ == self.primary_label(),
    {
        match self {
            ResolvedSendMode::Global { .. } => "Public HTTPS",
            ResolvedSendMode::Local { .. } => "Primary (No Warnings)",
        }
    }

    /// What the second link is called, where the mode has one.
    pub open spec fn secondary_label(self) -> Option<Seq<char>> {
        match self {
            ResolvedSendMode::Global { .. } => None,
            ResolvedSendMode::Local { .. } => Some("Secondary (Encrypted)"@),
        }
    }

    pub fn secondary_link_label(&self) -> (res: Option<&'static str>)
        ensures
            text::optional_str(res) == self.secondary_label(),
    {
        match self {
            ResolvedSendMode::Global { .. } => None,
            ResolvedSendMode::Local { .. } => Some("Secondary (Encrypted)"),
        }
    }

    /// How the transport is described.
    pub open spec fn transport(self) -> Seq<char> {
        match self {
            ResolvedSendMode::Global { provider } => provider.transport(),
            ResolvedSendMode::Local { .. } => "HTTP primary + HTTPS optional"@,
        }
    }

    pub fn transport_label(&self) -> (res: String)
        ensures
            res@ == self.transport(),
    {
        match self {
            ResolvedSendMode::Global { provider } => provider.transport_label().to_string(),
            ResolvedSendMode::Local { .. } => "HTTP primary + HTTPS optional".to_string(),
        }
    }

    /// The badge of the download page.
    pub open spec fn badge(self) -> Seq<char> {
        match self {
            ResolvedSendMode::Global { .. } => "GLOBAL"@,
            ResolvedSendMode::Local { .. } => "LAN"@,
        }
    }

    pub fn badge_label(&self) -> (res: &'static str)
        ensures
            res@ == self.badge(),
    {
        match self {
            ResolvedSendMode::Global { .. } => "GLOBAL",
            ResolvedSendMode::Local { .. } => "LAN",
        }
    }
}

/// What can be seen of a session at one moment.
#[derive(Clone, Debug)]
pub struct SessionSnapshot {
    pub display_name: String,
    pub download_name: String,
    pub content_kind: &'static str,
    pub transport_label: String,
    pub input_size: u64,
    pub content_length: Option<u64>,
    pub expires_at: Timestamp,
    pub remaining: Duration,
    pub once: bool,
    pub requires_pin: bool,
    pub revealed_pin: Option<String>,
    pub primary_link_label: &'static str,
    pub primary_link: String,
    pub secondary_link_label: Option<&'static str>,
    pub secondary_link: Option<String>,
    pub provider_status: String,
    pub completed_downloads: u64,
    pub bytes_served: u64,
    pub active_download: bool,
    pub consumed: bool,
    pub warnings: Vec<String>,
    pub mode: ResolvedSendMode,
    pub token: String,
}

/// A snapshot with its texts as sequences of characters.
#[verifier::ext_equal]
pub ghost struct SnapshotView {
    pub display_name: Seq<char>,
    pub download_name: Seq<char>,
    pub content_kind: Seq<char>,
    pub transport_label: Seq<char>,
    pub input_size: u64,
    pub content_length: Option<u64>,
    pub expires_at: Timestamp,
    pub remaining: Duration,
    pub once: bool,
    pub requires_pin: bool,
    pub revealed_pin: Option<Seq<char>>,
    pub primary_link_label: Seq<char>,
    pub primary_link: Seq<char>,
    pub secondary_link_label: Option<Seq<char>>,
    pub secondary_link: Option<Seq<char>>,
    pub provider_status: Seq<char>,
    pub completed_downloads: u64,
    pub bytes_served: u64,
    pub active_download: bool,
    pub consumed: bool,
    pub warnings: Seq<Seq<char>>,
    pub mode: ResolvedSendMode,
    pub token: Seq<char>,
}

impl View for SessionSnapshot {
    type V = SnapshotView;

    open spec fn view(&self) -> SnapshotView {
        SnapshotView {
            display_name: self.display_name@,
            download_name: self.download_name@,
            content_kind: self.content_kind@,
            transport_label: self.transport_label@,
            input_size: self.input_size,
            content_length: self.content_length,
            expires_at: self.expires_at,
            remaining: self.remaining,
            once: self.once,
            requires_pin: self.requires_pin,
            revealed_pin: text::optional(self.revealed_pin),
            primary_link_label: self.primary_link_label@,
            primary_link: self.primary_link@,
            secondary_link_label: text::optional_str(self.secondary_link_label),
            secondary_link: text::optional(self.secondary_link),
            provider_status: self.provider_status@,
            completed_downloads: self.completed_downloads,
            bytes_served: self.bytes_served,
            active_download: self.active_download,
            consumed: self.consumed,
            warnings: text::views(self.warnings@),
            mode: self.mode,
            token: self.token@,
        }
    }
}

/// Why a session turns a request away.
#[derive(Clone, Copy, Debug, PartialEq, Eq, Structural)]
pub enum SessionRejection {
    InvalidToken,
    Expired,
    PinRequired,
    InvalidPin,
    Busy,
    AlreadyConsumed,
}

impl SessionRejection {
    /// The HTTP status of the answer.
    pub open spec fn code(self) -> u16 {
        match self {
            SessionRejection::InvalidToken => 404,
            SessionRejection::Expired => 410,
            SessionRejection::PinRequired => 401,
            SessionRejection::InvalidPin => 401,
            SessionRejection::Busy => 409,
            SessionRejection::AlreadyConsumed => 410,
        }
    }

    pub fn status(&self) -> (res: u16)
        ensures
            res == self.code(),
    {
        match self {
            SessionRejection::InvalidToken => 404,
            SessionRejection::Expired => 410,
            SessionRejection::PinRequired => 401,
            SessionRejection::InvalidPin => 401,
            SessionRejection::Busy => 409,
            SessionRejection::AlreadyConsumed => 410,
        }
    }

    /// The body of the answer.
    pub open spec fn reason(self) -> Seq<char> {
        match self {
            SessionRejection::InvalidToken => "Beam session not found"@,
            SessionRejection::Expired => "This Beam session has expired"@,
            SessionRejection::PinRequired => "PIN required"@,
            SessionRejection::InvalidPin => "Invalid PIN"@,
            SessionRejection::Busy
                => "Another burn-after-reading download is already in progress"@,
            SessionRejection::AlreadyConsumed => "This Beam session was already consumed"@,
        }
    }

    pub fn message(&self) -> (res: &'static str)
        ensures
            res@ == self.reason(),
    {
        match self {
            SessionRejection::InvalidToken => "Beam session not found",
            SessionRejection::Expired => "This Beam session has expired",
            SessionRejection::PinRequired => "PIN required",
            SessionRejection::InvalidPin => "Invalid PIN",
            SessionRejection::Busy => "Another burn-after-reading download is already in progress",
            SessionRejection::AlreadyConsumed => "This Beam session was already consumed",
        }
    }
}

/// What of a session changes.
pub struct SessionState {
    pub mode: ResolvedSendMode,
    pub primary_link: String,
    pub secondary_link: Option<String>,
    pub provider_status: String,
    pub completed_downloads: u64,
    pub bytes_served: u64,
    pub active_download: bool,
    pub consumed: bool,
    pub warnings: Vec<String>,
}

/// One transfer: the content, the rules of access, and how far it has come.
pub struct SharedSession {
    pub token: String,
    pub content: ContentSource,
    pub access: AccessPolicy,
    pub revealed_pin: Option<String>,
    pub state: SessionState,
}

/// The result of a check that either passes or turns the request away.
pub open spec fn verdict(refusal: Option<SessionRejection>) -> Result<(), SessionRejection> {
    match refusal {
        None => Ok(()),
        Some(rejection) => Err(rejection),
    }
}

impl SharedSession {
    /// Only a burn-after-reading session is ever busy or consumed, and never both; no warning
    /// stands twice in the list.
    pub open spec fn well_formed(self) -> bool {
        &&& self.state.active_download ==> self.access.once
        &&& self.state.consumed ==> self.access.once && !self.state.active_download
        &&& text::views(self.state.warnings@).no_duplicates()
    }

    /// What the session is about: everything but its state.
    pub open spec fn same_subject(self, other: SharedSession) -> bool {
        &&& self.token == other.token
        &&& self.content == other.content
        &&& self.access == other.access
        &&& self.revealed_pin == other.revealed_pin
    }

    pub fn new(
        token: String,
        content: ContentSource,
        access: AccessPolicy,
        revealed_pin: Option<String>,
        mode: ResolvedSendMode,
    ) -> (res: SharedSession)
        ensures
            res.well_formed(),
            res.token == token,
            res.content == content,
            res.access == access,
            res.revealed_pin == revealed_pin,
            res.state.mode == mode,
            res.state.primary_link@ == ""@,
            res.state.secondary_link is None,
            res.state.provider_status@ == "Preparing session"@,
            res.state.completed_downloads == 0,
            res.state.bytes_served == 0,
            !res.state.active_download,
            !res.state.consumed,
            res.state.warnings@.len() == 0,
    {
        SharedSession {
            token,
            content,
            access,
            revealed_pin,
            state: SessionState {
                mode,
                primary_link: "".to_string(),
                secondary_link: None,
                provider_status: "Preparing session".to_string(),
                completed_downloads: 0,
                bytes_served: 0,
                active_download: false,
                consumed: false,
                warnings: Vec::new(),
            },
        }
    }

    pub fn token(&self) -> (res: &str)
        ensures
            res@ == self.token@,
    {
        self.token.as_str()
    }

    pub fn expires_at(&self) -> (res: Timestamp)
        ensures
            res == self.access.expires_at,
    {
        self.access.expires_at
    }

    pub fn content(&self) -> (res: &ContentSource)
        ensures
            *res == self.content,
    {
        &self.content
    }

    /// `self` is `before` with other links.
    pub open spec fn relinked(
        self,
        before: SharedSession,
        primary_link: String,
        secondary_link: Option<String>,
    ) -> bool {
        &&& self.same_subject(before)
        &&& self.state == SessionState { primary_link, secondary_link, ..before.state }
    }

    pub fn set_links(&mut self, primary_link: String, secondary_link: Option<String>)
        ensures
            final(self).relinked(*old(self), primary_link, secondary_link),
    {
        self.state.primary_link = primary_link;
        self.state.secondary_link = secondary_link;
    }

    /// `self` is `before` with another provider status.
    pub open spec fn restated(self, before: SharedSession, status: String) -> bool {
        &&& self.same_subject(before)
        &&& self.state == SessionState { provider_status: status, ..before.state }
    }

    pub fn set_provider_status(&mut self, status: String)
        ensures
            final(self).restated(*old(self), status),
    {
        self.state.provider_status = status;
    }

    /// `self` is `before` in another mode.
    pub open spec fn switched(self, before: SharedSession, mode: ResolvedSendMode) -> bool {
        &&& self.same_subject(before)
        &&& self.state == SessionState { mode, ..before.state }
    }

    pub fn set_mode(&mut self, mode: ResolvedSendMode)
        ensures
            final(self).switched(*old(self), mode),
    {
        self.state.mode = mode;
    }

    /// `self` is `before` with a warning that stands in the list once at most.
    pub open spec fn warned(self, before: SharedSession, warning: String) -> bool {
        &&& self.same_subject(before)
        &&& self.state == SessionState { warnings: self.state.warnings, ..before.state }
        &&& self.state.warnings@ == if text::views(before.state.warnings@).contains(warning@) {
            before.state.warnings@
        } else {
            before.state.warnings@.push(warning)
        }
    }

    /// Adds a warning, unless the same warning is there already.
    pub fn add_warning(&mut self, warning: String)
        ensures
            final(self).warned(*old(self), warning),
    {
        if !text::has_string(&self.state.warnings, warning.as_str()) {
            self.state.warnings.push(warning);
        }
    }

    /// What can be seen of the session at the moment `now`.
    pub open spec fn seen_at(self, now: Timestamp) -> SnapshotView {
        SnapshotView {
            display_name: self.content.display_name@,
            download_name: self.content.download_name@,
            content_kind: self.content.label(),
            transport_label: self.state.mode.transport(),
            input_size: self.content.input_size,
            content_length: self.content.length(),
            expires_at: self.access.expires_at,
            remaining: duration::time_left(self.access.expires_at, now),
            once: self.access.once,
            requires_pin: self.access.pin_hash is Some,
            revealed_pin: text::optional(self.revealed_pin),
            primary_link_label: self.state.mode.primary_label(),
            primary_link: self.state.primary_link@,
            secondary_link_label: self.state.mode.secondary_label(),
            secondary_link: text::optional(self.state.secondary_link),
            provider_status: self.state.provider_status@,
            completed_downloads: self.state.completed_downloads,
            bytes_served: self.state.bytes_served,
            active_download: self.state.active_download,
            consumed: self.state.consumed,
            warnings: text::views(self.content.warnings@) + text::views(self.state.warnings@),
            mode: self.state.mode,
            token: self.token@,
        }
    }

    /// The session as it is seen at the moment `now`.
    pub fn snapshot_at(&self, now: Timestamp) -> (res: SessionSnapshot)
        ensures
            res@ == self.seen_at(now),
    {
        let mut warnings: Vec<String> = Vec::new();
        text::append_copies(&mut warnings, self.content.warnings());
        text::append_copies(&mut warnings, &self.state.warnings);
        assert(text::views(Seq::<String>::empty()) + text::views(self.content.warnings@)
            =~= text::views(self.content.warnings@));
        SessionSnapshot {
            display_name: self.content.display_name().to_string(),
            download_name: self.content.download_name().to_string(),
            content_kind: self.content.kind_label(),
            transport_label: self.state.mode.transport_label(),
            input_size: self.content.input_size(),
            content_length: self.content.content_length(),
            expires_at: self.access.expires_at,
            remaining: duration::remaining_between(self.access.expires_at, now),
            once: self.access.once,
            requires_pin: self.access.pin_hash.is_some(),
            revealed_pin: text::copy_optional(&self.revealed_pin),
            primary_link_label: self.state.mode.primary_link_label(),
            primary_link: self.state.primary_link.clone(),
            secondary_link_label: self.state.mode.secondary_link_label(),
            secondary_link: text::copy_optional(&self.state.secondary_link),
            provider_status: self.state.provider_status.clone(),
            completed_downloads: self.state.completed_downloads,
            bytes_served: self.state.bytes_served,
            active_download: self.state.active_download,
            consumed: self.state.consumed,
            warnings,
            mode: self.state.mode,
            token: self.token.clone(),
        }
    }

    /// The session as it is seen now.
    pub fn snapshot(&self) -> (res: SessionSnapshot)
        ensures
            exists|now: Timestamp| now.on_clock() && res@ == #[trigger] self.seen_at(now),
    {
        let now = duration::now();
        self.snapshot_at(now)
    }
}

} // verus!
