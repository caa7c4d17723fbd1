//! What `beam send` always does.
use vstd::prelude::*;

use crate::cli;
use crate::cli::{EndReason, SendCommand, SessionLinks};
use crate::decimal;
use crate::duration;
use crate::duration::Duration;
use crate::provider::ProviderKind;
use crate::session::steps;
use crate::session::{RequestedSendMode, ResolvedSendMode, SharedSession};
use crate::text;
use crate::text::laws;

verus! {

/// A session is public unless the local network is asked for by name; the provider counts for
/// public sessions and the port for local ones.
pub proof fn sessions_are_public_by_default(command: SendCommand, mode: RequestedSendMode)
    requires
        call_ensures(SendCommand::requested_mode, (&command,), mode),
    ensures
        mode is Local <==> command.local,
        mode matches RequestedSendMode::Global { provider } ==> provider == command.provider,
        mode matches RequestedSendMode::Local { base_port } ==> base_port == command.port,
{
}

/// A link to a session in the local network leads to the host and the port, and carries the
/// token; the first goes over HTTP and the second over HTTPS, each to its own port.
pub proof fn local_links_lead_to_the_session(
    host: &str,
    http_port: u16,
    https_port: u16,
    token: &str,
    links: SessionLinks,
)
    requires
        call_ensures(cli::local_links, (host, http_port, https_port, token), links),
    ensures
        links.primary@ == "http://"@ + host@ + ":"@ + decimal::decimal(http_port as nat)
            + "/?token="@ + token@,
        links.secondary matches Some(second) && second@ == "https://"@ + host@ + ":"@
            + decimal::decimal(https_port as nat) + "/?token="@ + token@,
{
    reveal_strlit("http");
    reveal_strlit("https");
    reveal_strlit("://");
    reveal_strlit("http://");
    reveal_strlit("https://");
    assert("http"@ + "://"@ =~= "http://"@);
    assert("https"@ + "://"@ =~= "https://"@);
}

/// A public link is the public URL with the token behind it, whether or not the URL ends with a
/// slash.
pub proof fn public_links_lead_to_the_session(
    public_url: Seq<char>,
    plain: &str,
    slashed: &str,
    token: &str,
    first: String,
    second: String,
)
    requires
        public_url.len() > 0,
        public_url.last() != '/',
        plain@ == public_url,
        slashed@ == public_url + "/"@,
        call_ensures(cli::public_link, (plain, token), first),
        call_ensures(cli::public_link, (slashed, token), second),
    ensures
        first@ == public_url + "/?token="@ + token@,
        second@ == first@,
{
    reveal_strlit("/");
    let none = Seq::new(0, |i: int| '/');
    let one = Seq::new(1, |i: int| '/');
    assert(public_url + none =~= public_url);
    assert(public_url + one =~= public_url + "/"@);
    cli::trailing_slashes_do_not_matter(public_url, 0, token@);
    cli::trailing_slashes_do_not_matter(public_url, 1, token@);
}

/// A tunnel leads to the server on this machine.
pub proof fn tunnels_lead_to_this_machine(port: u16, origin: String)
    requires
        call_ensures(cli::local_origin, (port,), origin),
    ensures
        origin@ == "http://127.0.0.1:"@ + decimal::decimal(port as nat),
{
}

/// A session that goes public is shown with its public link and without a second one; who it is
/// for and how far it is stays as it was.
pub proof fn going_public_shows_the_link(
    session: &mut SharedSession,
    provider: ProviderKind,
    public_url: &str,
    ready_status: String,
)
    requires
        call_ensures(cli::go_public, (session, provider, public_url, ready_status), ()),
    ensures
        final(session).state.mode == (ResolvedSendMode::Global { provider }),
        public_url@.len() > 0 && public_url@.last() != '/' ==> final(session).state.primary_link@
            == public_url@ + "/?token="@ + old(session).token@,
        final(session).state.secondary_link is None,
        final(session).state.provider_status == ready_status,
        final(session).state.warnings == old(session).state.warnings,
        final(session).token == old(session).token,
        final(session).access == old(session).access,
        final(session).content == old(session).content,
        final(session).revealed_pin == old(session).revealed_pin,
        steps::same_progress(*final(session), *old(session)),
{
    let none = Seq::new(0, |i: int| '/');
    assert(public_url@ + none =~= public_url@);
    if public_url@.len() > 0 && public_url@.last() != '/' {
        cli::trailing_slashes_do_not_matter(public_url@, 0, old(session).token@);
    }
}

/// A session that goes local is shown with its two links.
pub proof fn going_local_shows_both_links(
    session: &mut SharedSession,
    host: &str,
    http_port: u16,
    https_port: u16,
)
    requires
        call_ensures(cli::go_local, (session, host, http_port, https_port), ()),
    ensures
        final(session).state.mode == (ResolvedSendMode::Local { http_port, https_port }),
        final(session).state.primary_link@ == "http://"@ + host@ + ":"@ + decimal::decimal(
            http_port as nat,
        ) + "/?token="@ + old(session).token@,
        final(session).state.secondary_link matches Some(second) && second@ == "https://"@ + host@
            + ":"@ + decimal::decimal(https_port as nat) + "/?token="@ + old(session).token@,
        final(session).state.provider_status@ == "Share over the same network with local HTTPS"@,
        final(session).state.warnings == old(session).state.warnings,
        final(session).token == old(session).token,
        final(session).access == old(session).access,
        final(session).content == old(session).content,
        final(session).revealed_pin == old(session).revealed_pin,
        steps::same_progress(*final(session), *old(session)),
{
    reveal_strlit("http");
    reveal_strlit("https");
    reveal_strlit("://");
    reveal_strlit("http://");
    reveal_strlit("https://");
    assert("http"@ + "://"@ =~= "http://"@);
    assert("https"@ + "://"@ =~= "https://"@);
}

/// The sender is warned where a tunnel of Pinggy may end before the session: where the session
/// is longer than an hour, and never with another provider.
pub proof fn short_tunnels_are_warned_of(
    provider: ProviderKind,
    ttl: Duration,
    res: Option<&'static str>,
)
    requires
        ttl.well_formed(),
        call_ensures(cli::tunnel_warning, (provider, ttl), res),
    ensures
        res is Some <==> provider == ProviderKind::Pinggy && (ttl.secs > 3_600 || (ttl.secs == 3_600
            && ttl.nanos > 0)),
        res matches Some(warning) ==> text::contains(warning@, "60 minutes"@),
{
    reveal_strlit("Pinggy's free tunnel may expire after 60 minutes even if Beam's TTL is longer.");
    reveal_strlit("60 minutes");
    let warning = cli::PINGGY_WARNING@;
    assert(warning.subrange(38, 48) =~= "60 minutes"@);
    assert(text::occurs_at(warning, "60 minutes"@, 38));
}

/// The status at the end of a session says why it ended, and nothing else of the session
/// changes.
pub proof fn end_is_noted(session: &mut SharedSession, reason: EndReason)
    requires
        call_ensures(cli::note_end, (session, reason), ()),
    ensures
        reason matches EndReason::Expired { ttl } ==> final(session).state.provider_status@
            == "TTL expired after "@ + duration::duration_text(ttl),
        reason is Interrupted ==> final(session).state.provider_status@ == "Interrupted by user"@,
        steps::same_offer(*final(session), *old(session)),
        steps::same_progress(*final(session), *old(session)),
{
}

/// Without a port, any port will do; with one, that is the port.
pub proof fn asked_port_is_used(asked: Option<u16>, port: u16)
    requires
        call_ensures(cli::listen_port, (asked,), port),
    ensures
        asked matches Some(wanted) ==> port == wanted,
        asked is None ==> port == 0,
{
}

/// What goes wrong is told with its cause.
pub proof fn errors_name_their_cause(
    provider: ProviderKind,
    started: String,
    cause: &str,
    stopped: String,
    command_name: &str,
    copied: String,
)
    requires
        call_ensures(cli::start_error, (provider,), started),
        call_ensures(cli::server_error, (cause,), stopped),
        call_ensures(cli::copied_status, (command_name,), copied),
    ensures
        text::ends_with(started@, provider.id()),
        text::ends_with(stopped@, cause@),
        text::ends_with(copied@, command_name@),
{
    laws::middle_is_contained("unable to start "@, provider.id(), Seq::empty());
    laws::middle_is_contained("beam server stopped unexpectedly: "@, cause@, Seq::empty());
    laws::middle_is_contained("Link copied to clipboard via "@, command_name@, Seq::empty());
}

/// The encrypted link gets the next port that is free behind the one that was asked for, and
/// any port where none was.
pub proof fn https_port_follows_http_port(
    base: Option<u16>,
    attempt: u16,
    port: Option<u16>,
)
    requires
        call_ensures(cli::https_port, (base, attempt), port),
    ensures
        base matches Some(first) ==> (port matches Some(chosen) ==> chosen == first + 1 + attempt),
        base matches Some(first) ==> (port is None <==> first + 1 + attempt > 65_535),
        base is None && attempt == 0 ==> port == Some(0u16),
        base is None && attempt > 0 ==> port is None,
{
}

/// The link is put on the clipboard by the first program that works: that of macOS on macOS,
/// then that of Wayland, then that of X.
pub proof fn clipboard_programs_are_known(
    is_macos: bool,
    programs: Vec<cli::ClipboardProgram>,
    ttl: Duration,
    expired: String,
)
    requires
        call_ensures(cli::clipboard_programs, (is_macos,), programs),
        call_ensures(cli::expired_status, (ttl,), expired),
    ensures
        programs@.len() == (if is_macos {
            3int
        } else {
            2
        }),
        is_macos ==> programs@[0].command@ == "pbcopy"@,
        programs@[programs@.len() - 2].command@ == "wl-copy"@,
        programs@[programs@.len() - 1].command@ == "xclip"@,
        programs@[programs@.len() - 1].args@.len() == 2 && programs@[programs@.len()
            - 1].args@[0]@ == "-selection"@ && programs@[programs@.len() - 1].args@[1]@
            == "clipboard"@,
        expired@ == "TTL expired after "@ + duration::duration_text(ttl),
{
}

} // verus!
