//! What `beam send` decides: the mode, the ports, the links and what it reports.
pub mod laws;

use vstd::prelude::*;

use crate::content::ArchiveFormat;
use crate::decimal;
use crate::duration;
use crate::duration::Duration;
use crate::provider;
use crate::provider::ProviderKind;
use crate::session::{RequestedSendMode, ResolvedSendMode, SharedSession};
use crate::text;

verus! {

/// The status while a public tunnel is being opened.
pub const STARTING_STATUS: &'static str = "Starting public tunnel";

/// The status after an interrupt.
pub const INTERRUPTED_STATUS: &'static str = "Interrupted by user";

/// The status of a session in the local network.
pub const LOCAL_STATUS: &'static str = "Share over the same network with local HTTPS";

/// The arguments of `beam send`.
#[derive(Debug)]
pub struct SendCommand {
    pub path: String,
    pub ttl: Duration,
    pub once: bool,
    /// The default, named explicitly.
    pub global: bool,
    pub local: bool,
    pub provider: ProviderKind,
    pub pin: Option<String>,
    pub archive: ArchiveFormat,
    pub port: Option<u16>,
}

impl SendCommand {
    /// The mode that is asked for: the internet, unless the local network is named.
    pub fn requested_mode(&self) -> (res: RequestedSendMode)
        ensures
            res == (if self.local {
                RequestedSendMode::Local { base_port: self.port }
            } else {
                RequestedSendMode::Global { provider: self.provider }
            }),
    {
        if self.local {
            RequestedSendMode::Local { base_port: self.port }
        } else {
            RequestedSendMode::Global { provider: self.provider }
        }
    }
}

/// The port to listen on: the one that is asked for, or any (zero).
pub fn listen_port(port: Option<u16>) -> (res: u16)
    ensures
        res == match port {
            Some(port) => port,
            None => 0,
        },
{
    match port {
        Some(port) => port,
        None => 0,
    }
}

/// The port to try for local HTTPS after `attempt` others were taken: those above the port of
/// HTTP in turn, or any (zero) where no port is asked for. None where there are no more.
pub open spec fn https_candidate(base_port: Option<u16>, attempt: u16) -> Option<u16> {
    match base_port {
        Some(base) => if base + 1 + attempt <= u16::MAX {
            Some((base + 1 + attempt) as u16)
        } else {
            None
        },
        None => if attempt == 0 {
            Some(0)
        } else {
            None
        },
    }
}

/// The port to try for local HTTPS after `attempt` others were taken.
pub fn https_port(base_port: Option<u16>, attempt: u16) -> (res: Option<u16>)
    ensures
        res == https_candidate(base_port, attempt),
{
    match base_port {
        Some(base) => {
            let port: u32 = base as u32 + 1 + attempt as u32;
            if port <= u16::MAX as u32 {
                Some(port as u16)
            } else {
                None
            }
        },
        None => if attempt == 0 {
            Some(0)
        } else {
            None
        },
    }
}

/// The links of a session.
#[derive(Debug)]
pub struct SessionLinks {
    pub primary: String,
    pub secondary: Option<String>,
}

/// The link to a session at a public URL.
pub open spec fn public_link_text(public_url: Seq<char>, token: Seq<char>) -> Seq<char> {
    text::without_trailing(public_url, '/') + "/?token="@ + token
}

/// The link to a session in the local network.
pub open spec fn local_link_text(
    scheme: Seq<char>,
    host: Seq<char>,
    port: u16,
    token: Seq<char>,
) -> Seq<char> {
    scheme + "://"@ + host + ":"@ + decimal::decimal(port as nat) + "/?token="@ + token
}

/// The link to a session at a public URL.
pub fn public_link(public_url: &str, token: &str) -> (res: String)
    ensures
        res@ == public_link_text(public_url@, token@),
{
    let mut link = text::trim_trailing(public_url, '/');
    link.append("/?token=");
    link.append(token);
    link
}

fn local_link(scheme: &str, host: &str, port: u16, token: &str) -> (res: String)
    ensures
        res@ == local_link_text(scheme@, host@, port, token@),
{
    let mut link = scheme.to_string();
    link.append("://");
    link.append(host);
    link.append(":");
    link.append(decimal::format_u64(port as u64).as_str());
    link.append("/?token=");
    link.append(token);
    link
}

/// The links of a session in the local network: HTTP first, HTTPS second.
pub fn local_links(host: &str, http_port: u16, https_port: u16, token: &str) -> (res: SessionLinks)
    ensures
        res.primary@ == local_link_text("http"@, host@, http_port, token@),
        res.secondary matches Some(link) && link@ == local_link_text(
            "https"@,
            host@,
            https_port,
            token@,
        ),
{
    SessionLinks {
        primary: local_link("http", host, http_port, token),
        secondary: Some(local_link("https", host, https_port, token)),
    }
}

/// The address at which a tunnel finds the local server.
pub fn local_origin(port: u16) -> (res: String)
    ensures
        res@ == "http://127.0.0.1:"@ + decimal::decimal(port as nat),
{
    let mut origin = "http://127.0.0.1:".to_string();
    origin.append(decimal::format_u64(port as u64).as_str());
    origin
}

/// Puts a session at a public URL.
pub fn go_public(
    session: &mut SharedSession,
    provider: ProviderKind,
    public_url: &str,
    ready_status: String,
)
    ensures
        final(session).same_subject(*old(session)),
        final(session).state.mode == (ResolvedSendMode::Global { provider }),
        final(session).state.primary_link@ == public_link_text(public_url@, old(session).token@),
        final(session).state.secondary_link is None,
        final(session).state.provider_status == ready_status,
        final(session).state.warnings == old(session).state.warnings,
        final(session).state.completed_downloads == old(session).state.completed_downloads,
        final(session).state.bytes_served == old(session).state.bytes_served,
        final(session).state.active_download == old(session).state.active_download,
        final(session).state.consumed == old(session).state.consumed,
{
    let link = public_link(public_url, session.token());
    session.set_mode(ResolvedSendMode::Global { provider });
    session.set_links(link, None);
    session.set_provider_status(ready_status);
}

/// Puts a session at two ports in the local network.
pub fn go_local(session: &mut SharedSession, host: &str, http_port: u16, https_port: u16)
    ensures
        final(session).same_subject(*old(session)),
        final(session).state.mode == (ResolvedSendMode::Local { http_port, https_port }),
        final(session).state.primary_link@ == local_link_text(
            "http"@,
            host@,
            http_port,
            old(session).token@,
        ),
        final(session).state.secondary_link matches Some(link) && link@ == local_link_text(
            "https"@,
            host@,
            https_port,
            old(session).token@,
        ),
        final(session).state.provider_status@ == LOCAL_STATUS@,
        final(session).state.warnings == old(session).state.warnings,
        final(session).state.completed_downloads == old(session).state.completed_downloads,
        final(session).state.bytes_served == old(session).state.bytes_served,
        final(session).state.active_download == old(session).state.active_download,
        final(session).state.consumed == old(session).state.consumed,
{
    let links = local_links(host, http_port, https_port, session.token());
    session.set_mode(ResolvedSendMode::Local { http_port, https_port });
    session.set_links(links.primary, links.secondary);
    session.set_provider_status(LOCAL_STATUS.to_string());
}

/// The warning that a tunnel may end before the session does.
pub const PINGGY_WARNING: &'static str =
    "Pinggy's free tunnel may expire after 60 minutes even if Beam's TTL is longer.";

/// The warning that a tunnel of the provider may end before a session of this length does.
pub fn tunnel_warning(provider: ProviderKind, ttl: Duration) -> (res: Option<&'static str>)
    requires
        ttl.well_formed(),
    ensures
        res == (if provider == ProviderKind::Pinggy && ttl.total()
            > provider::PINGGY_FREE_TTL_SECS * 1_000_000_000 {
            Some(PINGGY_WARNING)
        } else {
            None
        }),
{
    let limit = provider::pinggy_free_ttl_limit();
    let longer = ttl.secs > limit.secs || (ttl.secs == limit.secs && ttl.nanos > limit.nanos);
    if let ProviderKind::Pinggy = provider {
        if longer {
            return Some(PINGGY_WARNING);
        }
    }
    None
}

/// The error where a provider did not start.
pub fn start_error(provider: ProviderKind) -> (res: String)
    ensures
        res@ == "unable to start "@ + provider.id(),
{
    let mut error = "unable to start ".to_string();
    error.append(provider.name());
    error
}

/// The status once a link was copied to the clipboard.
pub fn copied_status(command_name: &str) -> (res: String)
    ensures
        res@ == "Link copied to clipboard via "@ + command_name@,
{
    let mut status = "Link copied to clipboard via ".to_string();
    status.append(command_name);
    status
}

/// The status once the time of a session is over.
pub fn expired_status(ttl: Duration) -> (res: String)
    ensures
        res@ == "TTL expired after "@ + duration::duration_text(ttl),
{
    let mut status = "TTL expired after ".to_string();
    status.append(duration::format_duration(ttl).as_str());
    status
}

/// Why a session ends before its content was burnt.
#[derive(Clone, Copy, Debug, PartialEq, Eq, Structural)]
pub enum EndReason {
    /// The time that it was given, counted from the start of the wait, is over.
    Expired { ttl: Duration },
    Interrupted,
}

/// Notes in a session why it ends.
pub fn note_end(session: &mut SharedSession, reason: EndReason)
    ensures
        final(session).same_subject(*old(session)),
        final(session).restated(*old(session), final(session).state.provider_status),
        final(session).state.provider_status@ == match reason {
            EndReason::Expired { ttl } => "TTL expired after "@ + duration::duration_text(ttl),
            EndReason::Interrupted => INTERRUPTED_STATUS@,
        },
{
    let status = match reason {
        EndReason::Expired { ttl } => expired_status(ttl),
        EndReason::Interrupted => INTERRUPTED_STATUS.to_string(),
    };
    session.set_provider_status(status);
}

/// The error where the server stopped on its own.
pub fn server_error(error: &str) -> (res: String)
    ensures
        res@ == "beam server stopped unexpectedly: "@ + error@,
{
    let mut out = "beam server stopped unexpectedly: ".to_string();
    out.append(error);
    out
}

/// A program that copies what it reads to the clipboard, with its arguments.
#[derive(Debug)]
pub struct ClipboardProgram {
    pub command: &'static str,
    pub args: Vec<&'static str>,
}

/// The programs to hand a link to, in this order, until one succeeds.
pub fn clipboard_programs(is_macos: bool) -> (res: Vec<ClipboardProgram>)
    ensures
        res@.len() == if is_macos {
            3int
        } else {
            2
        },
        is_macos ==> res@[0].command@ == "pbcopy"@ && res@[0].args@.len() == 0,
        res@[res@.len() - 2].command@ == "wl-copy"@,
        res@[res@.len() - 2].args@.len() == 0,
        res@[res@.len() - 1].command@ == "xclip"@,
        res@[res@.len() - 1].args@.len() == 2,
        res@[res@.len() - 1].args@[0]@ == "-selection"@,
        res@[res@.len() - 1].args@[1]@ == "clipboard"@,
{
    let mut programs: Vec<ClipboardProgram> = Vec::new();
    if is_macos {
        programs.push(ClipboardProgram { command: "pbcopy", args: Vec::new() });
    }
    programs.push(ClipboardProgram { command: "wl-copy", args: Vec::new() });
    let mut args: Vec<&'static str> = Vec::new();
    args.push("-selection");
    args.push("clipboard");
    programs.push(ClipboardProgram { command: "xclip", args });
    programs
}

/// With a port for HTTP, the ten ports above it are tried for HTTPS before any other, and none
/// is tried twice.
pub proof fn https_ports_rise(base: u16, attempt: u16, later: u16)
    requires
        attempt < later,
    ensures
        attempt < 10 && base + 10 <= u16::MAX ==> https_candidate(Some(base), attempt) == Some(
            (base + 1 + attempt) as u16,
        ),
        https_candidate(Some(base), attempt) matches Some(port) ==> port > base,
        https_candidate(Some(base), attempt) matches Some(port) ==> (https_candidate(
            Some(base),
            later,
        ) matches Some(next) ==> next > port),
        https_candidate(Some(base), attempt) is None ==> https_candidate(Some(base), later) is None,
{
}

proof fn lemma_without_trailing(text: Seq<char>, count: nat)
    requires
        text.len() > 0 ==> text.last() != '/',
    ensures
        text::without_trailing(text + Seq::new(count, |i: int| '/'), '/') == text,
    decreases count,
{
    let slashes = Seq::new(count, |i: int| '/');
    if count == 0 {
        assert(text + slashes =~= text);
    } else {
        lemma_without_trailing(text, (count - 1) as nat);
        assert((text + slashes).drop_last() =~= text + Seq::new(
            (count - 1) as nat,
            |i: int| '/',
        ));
        assert((text + slashes).last() == '/');
    }
}

/// However many slashes end a public URL, the link is the same.
pub proof fn trailing_slashes_do_not_matter(
    public_url: Seq<char>,
    count: nat,
    token: Seq<char>,
)
    requires
        public_url.len() > 0 ==> public_url.last() != '/',
    ensures
        public_link_text(public_url + Seq::new(count, |i: int| '/'), token) == public_url
            + "/?token="@ + token,
{
    lemma_without_trailing(public_url, count);
}

} // verus!
