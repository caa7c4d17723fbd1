//! What holds of every start of a tunnel and of every request through the native relay.
use vstd::prelude::*;

use crate::decimal;
use crate::headers;
use crate::headers::HeaderRule;
use crate::provider::auto::AttemptView;
use crate::provider::command;
use crate::provider::native;
use crate::provider::native::{
    ProxyEvent, ProxyOutput, ProxyRequest, ReaderEvent, ReaderStep,
};
use crate::provider::output;
use crate::provider::public_url;
use crate::provider::public_url::HostRule;
use crate::provider::startup;
use crate::provider::startup::{
    ReadEvent, StartupFacts, StartupPoll, StartupWatch, TunnelProgram,
};
use crate::provider::ProviderKind;
use crate::relay_protocol;
use crate::relay_protocol::{
    ClientToRelayMessage, HeaderPair, RelaySessionCreateRequest, RelayToClientMessage,
};
use crate::text;
use crate::text::laws;
use crate::weburl;

verus! {

/// A tunnel is ready as soon as its public URL is known, and only then: whether the program
/// still runs and how long it took does not matter.
pub proof fn known_url_makes_tunnel_ready(
    program: TunnelProgram,
    facts: StartupFacts,
    poll: StartupPoll,
)
    requires
        call_ensures(startup::poll_startup, (program, &facts), poll),
    ensures
        facts.url matches Some(url) ==> (poll matches StartupPoll::Ready { public_url, .. }
            && public_url@ == url@),
        facts.url is None ==> !(poll is Ready),
{
}

/// A status of readiness names the service and the public URL.
pub proof fn ready_status_names_the_url(
    program: TunnelProgram,
    facts: StartupFacts,
    poll: StartupPoll,
)
    requires
        call_ensures(startup::poll_startup, (program, &facts), poll),
    ensures
        poll matches StartupPoll::Ready { public_url, status } ==> text::ends_with(
            status@,
            " ready at "@ + public_url@,
        ) && text::starts_with(status@, program.service()),
{
    if let StartupPoll::Ready { public_url, status } = poll {
        let tail = " ready at "@ + public_url@;
        assert(status@ =~= program.service() + tail);
        laws::middle_is_contained(program.service(), tail, Seq::empty());
        laws::middle_is_contained(Seq::empty(), program.service(), tail);
    }
}

/// Without a URL, a program that has ended has failed and need not be stopped; one that runs is
/// waited for until its time is over, and then it has failed and is to be stopped.
pub proof fn silent_program_fails_in_time(
    program: TunnelProgram,
    facts: StartupFacts,
    poll: StartupPoll,
)
    requires
        call_ensures(startup::poll_startup, (program, &facts), poll),
        facts.url is None,
    ensures
        facts.exit_status is Some ==> (poll matches StartupPoll::Failed { stop, .. } && !stop),
        facts.exit_status is None && facts.elapsed_millis >= 20_000 ==> (
        poll matches StartupPoll::Failed { stop, .. } && stop),
        facts.exit_status is None && facts.elapsed_millis < 20_000 ==> poll is Wait,
        poll matches StartupPoll::Wait { millis } ==> 0 < millis <= 1_000,
        poll matches StartupPoll::Failed { message, .. } ==> (facts.startup_error matches Some(
            error,
        ) ==> message@ == error@),
{
}

/// Where the lines of the program tell nothing, the reason names the program and how it ended,
/// or that it took too long.
pub proof fn silent_failure_is_explained(
    program: TunnelProgram,
    facts: StartupFacts,
    poll: StartupPoll,
)
    requires
        call_ensures(startup::poll_startup, (program, &facts), poll),
        facts.startup_error is None,
    ensures
        poll matches StartupPoll::Failed { message, .. } ==> {
            &&& facts.exit_status matches Some(exit) ==> text::contains(message@, exit@)
                && text::contains(message@, program.process())
            &&& facts.exit_status is None ==> text::contains(message@, program.service())
                && text::contains(message@, "timed out"@)
        },
{
    broadcast use {laws::front_is_contained, laws::back_is_contained, laws::text_contains_itself};

    reveal_strlit("timed out waiting for ");
    reveal_strlit("timed out");
    assert("timed out waiting for "@.subrange(0, 9) =~= "timed out"@);
    assert(text::occurs_at("timed out waiting for "@, "timed out"@, 0));
    assert(text::contains("timed out waiting for "@, "timed out"@));
}

/// What stands for a tunnel in messages.
pub proof fn programs_have_their_names(program: TunnelProgram)
    ensures
        program == TunnelProgram::Cloudflared ==> program.service() == "cloudflared"@
            && program.process() == "cloudflared"@,
        program == TunnelProgram::Pinggy ==> program.service() == "Pinggy"@ && program.process()
            == "Pinggy ssh"@,
        program == TunnelProgram::Serveo ==> program.service() == "Serveo"@ && program.process()
            == "Serveo ssh"@,
{
}

/// The first URL that a line of cloudflared holds is handed on as the public URL, the first time
/// there is one; so is the first one of a tunnel in a line of Pinggy or Serveo. White space
/// around the line does not matter.
pub proof fn first_link_is_handed_on(
    watch: StartupWatch,
    program: TunnelProgram,
    before: Seq<char>,
    line: Seq<char>,
    behind: Seq<char>,
    text: String,
    found: Seq<Seq<char>>,
    k: int,
)
    requires
        !watch.url_sent,
        text@ == before + line + behind,
        laws::is_blank(before),
        laws::is_blank(behind),
        line.len() > 0,
        !text::is_space(line[0]),
        !text::is_space(line.last()),
        0 <= k < found.len(),
        match program {
            TunnelProgram::Cloudflared => k == 0 && public_url::regex_matches(
                public_url::CLOUDFLARED_URL@,
                line,
            ) == Some(found),
            TunnelProgram::Pinggy => public_url::regex_matches(public_url::PINGGY_URL@, line)
                == Some(found) && HostRule::Pinggy.accepts_url(found[k]) && forall|i: int|
                0 <= i < k ==> !HostRule::Pinggy.accepts_url(#[trigger] found[i]),
            TunnelProgram::Serveo => !line.contains('\u{1b}') && public_url::regex_matches(
                public_url::SERVEO_URL@,
                line,
            ) == Some(found) && HostRule::Serveo.accepts_url(found[k]) && forall|i: int|
                0 <= i < k ==> !HostRule::Serveo.accepts_url(#[trigger] found[i]),
        },
    ensures
        watch.reaction(program, ReadEvent::Line { text }).url == Some(found[k]),
        !watch.reaction(program, ReadEvent::Line { text }).done,
{
    laws::trimming_takes_white_space_only(before, line, behind);
    match program {
        TunnelProgram::Cloudflared => {},
        TunnelProgram::Pinggy => {
            lemma_first_accepted(found, HostRule::Pinggy, k);
        },
        TunnelProgram::Serveo => {
            public_url::plain_text_keeps_everything(line);
            lemma_first_accepted(found, HostRule::Serveo, k);
        },
    }
}

proof fn lemma_first_accepted(found: Seq<Seq<char>>, rule: HostRule, k: int)
    requires
        0 <= k < found.len(),
        rule.accepts_url(found[k]),
        forall|i: int| 0 <= i < k ==> !rule.accepts_url(#[trigger] found[i]),
    ensures
        public_url::first_accepted(found, rule) == Some(found[k]),
    decreases k,
{
    if k > 0 {
        assert(!rule.accepts_url(found[0]));
        let rest = found.skip(1);
        assert forall|i: int| 0 <= i < k - 1 implies !rule.accepts_url(#[trigger] rest[i]) by {
            assert(rest[i] == found[i + 1]);
        }
        lemma_first_accepted(rest, rule, k - 1);
    }
}

/// Reading goes on until the program has closed its output, and an error of reading is shown.
pub proof fn reading_ends_with_the_output(
    watch: StartupWatch,
    program: TunnelProgram,
    event: ReadEvent,
)
    ensures
        watch.reaction(program, event).done <==> !(event is Line),
        event is End ==> watch.reaction(program, event).status is None,
        event matches ReadEvent::Failed { error } ==> (watch.reaction(
            program,
            event,
        ).status matches Some(status) && text::ends_with(status, " read error: "@ + error@)),
        !(event is Line) ==> watch.reaction(program, event).url is None,
{
    if let ReadEvent::Failed { error } = event {
        let tail = " read error: "@ + error@;
        assert(program.process() + " read error: "@ + error@ =~= program.process() + tail);
        laws::middle_is_contained(program.process(), tail, Seq::empty());
    }
}

/// A line is shown as it is, or its first 120 characters; of an empty line nothing comes.
pub proof fn lines_are_shown(
    watch: StartupWatch,
    program: TunnelProgram,
    line: Seq<char>,
    text: String,
)
    requires
        text@ == line,
        line.len() > 0,
        !text::is_space(line[0]),
        !text::is_space(line.last()),
        !line.contains('\u{1b}'),
    ensures
        watch.reaction(program, ReadEvent::Line { text }).status matches Some(status)
            && status.is_prefix_of(line) && (status == line || status.len() == 120),
{
    let none = Seq::<char>::empty();
    assert(none + line + none =~= line);
    laws::trimming_takes_white_space_only(none, line, none);
    public_url::plain_text_keeps_everything(line);
}

/// The sequences of a terminal are taken out of a line, and nothing else is.
pub proof fn terminal_sequences_are_taken_out(
    before: Seq<char>,
    parameters: Seq<char>,
    last: char,
    behind: Seq<char>,
)
    requires
        !before.contains('\u{1b}'),
        forall|i: int| 0 <= i < parameters.len() ==> !('@' <= #[trigger] parameters[i] <= '~'),
        '@' <= last <= '~',
    ensures
        public_url::stripped(before + (seq!['\u{1b}', '['] + parameters.push(last)) + behind)
            == before + public_url::stripped(behind),
    decreases before.len(),
{
    let code = seq!['\u{1b}', '['] + parameters.push(last);
    let all = before + code + behind;
    if before.len() == 0 {
        assert(all =~= code + behind);
        assert(all[0] == '\u{1b}' && all[1] == '[');
        assert(all.skip(2) =~= parameters.push(last) + behind);
        lemma_behind(parameters, last, behind);
        assert(before + public_url::stripped(behind) =~= public_url::stripped(behind));
    } else {
        assert(before[0] != '\u{1b}');
        let rest = before.skip(1);
        assert(!rest.contains('\u{1b}')) by {
            if rest.contains('\u{1b}') {
                let i = choose|i: int| 0 <= i < rest.len() && rest[i] == '\u{1b}';
                assert(before[i + 1] == '\u{1b}');
            }
        }
        terminal_sequences_are_taken_out(rest, parameters, last, behind);
        assert(all.skip(1) =~= rest + code + behind);
        assert(all[0] == before[0]);
        assert(seq![before[0]] + (rest + public_url::stripped(behind)) =~= before
            + public_url::stripped(behind));
    }
}

proof fn lemma_behind(parameters: Seq<char>, last: char, behind: Seq<char>)
    requires
        forall|i: int| 0 <= i < parameters.len() ==> !('@' <= #[trigger] parameters[i] <= '~'),
        '@' <= last <= '~',
    ensures
        public_url::behind_sequence(parameters.push(last) + behind) == behind,
    decreases parameters.len(),
{
    let all = parameters.push(last) + behind;
    if parameters.len() == 0 {
        assert(all[0] == last);
        assert(all.skip(1) =~= behind);
    } else {
        let rest = parameters.skip(1);
        assert forall|i: int| 0 <= i < rest.len() implies !('@' <= #[trigger] rest[i] <= '~') by {
            assert(rest[i] == parameters[i + 1]);
        }
        assert(all[0] == parameters[0]);
        lemma_behind(rest, last, behind);
        assert(all.skip(1) =~= rest.push(last) + behind);
    }
}

/// Every host below `pinggy.link` is one of a tunnel, and so is every host below `pinggy.io` but
/// the dashboard; no host outside of these domains is.
pub proof fn pinggy_hosts_are_known(name: Seq<char>, host: Seq<char>)
    ensures
        HostRule::Pinggy.accepts(name + ".pinggy.link"@),
        !text::starts_with(name + ".pinggy.io"@, "dashboard."@) ==> HostRule::Pinggy.accepts(
            name + ".pinggy.io"@,
        ),
        !text::ends_with(host, ".pinggy.link"@) && !text::ends_with(host, ".pinggy.io"@)
            ==> !HostRule::Pinggy.accepts(host),
        text::starts_with(host, "dashboard."@) && !text::ends_with(host, ".pinggy.link"@)
            ==> !HostRule::Pinggy.accepts(host),
{
    laws::middle_is_contained(name, ".pinggy.link"@, Seq::empty());
    laws::middle_is_contained(name, ".pinggy.io"@, Seq::empty());
    assert(name + ".pinggy.link"@ != "dashboard.pinggy.io"@) by {
        reveal_strlit("dashboard.pinggy.io");
        reveal_strlit(".pinggy.link");
        assert((name + ".pinggy.link"@).last() == 'k');
        assert("dashboard.pinggy.io"@.last() == 'o');
    }
    assert(text::starts_with("dashboard.pinggy.io"@, "dashboard."@)) by {
        reveal_strlit("dashboard.pinggy.io");
        reveal_strlit("dashboard.");
        assert("dashboard.pinggy.io"@.subrange(0, 10) =~= "dashboard."@);
    }
}

/// Every host below `serveo.net` or `serveousercontent.com` is one of a tunnel, and no other is.
pub proof fn serveo_hosts_are_known(name: Seq<char>, host: Seq<char>)
    ensures
        HostRule::Serveo.accepts(name + ".serveo.net"@),
        HostRule::Serveo.accepts(name + ".serveousercontent.com"@),
        HostRule::Serveo.accepts(host) ==> text::ends_with(host, ".serveo.net"@)
            || text::ends_with(host, ".serveousercontent.com"@),
{
    laws::middle_is_contained(name, ".serveo.net"@, Seq::empty());
    laws::middle_is_contained(name, ".serveousercontent.com"@, Seq::empty());
}

/// A line of ssh that says one of these things reports an error, wherever in the line it does.
pub proof fn ssh_errors_are_seen(before: Seq<char>, behind: Seq<char>)
    ensures
        output::is_ssh_error("ssh: "@ + behind),
        output::is_ssh_error(before + "Permission denied"@ + behind),
        output::is_ssh_error(before + "Host key verification failed"@ + behind),
        output::is_ssh_error(before + "Could not resolve hostname"@ + behind),
        output::is_ssh_error(before + "Connection timed out"@ + behind),
        output::is_ssh_error(before + "Connection refused"@ + behind),
        output::is_ssh_error(before + "remote port forwarding failed"@ + behind),
        output::is_ssh_error(before + "administratively prohibited"@ + behind),
        output::is_ssh_error(before + "kex_exchange_identification"@ + behind),
{
    laws::middle_is_contained(before, "ssh: "@, behind);
    laws::middle_is_contained(before, "Permission denied"@, behind);
    laws::middle_is_contained(before, "Host key verification failed"@, behind);
    laws::middle_is_contained(before, "Could not resolve hostname"@, behind);
    laws::middle_is_contained(before, "Connection timed out"@, behind);
    laws::middle_is_contained(before, "Connection refused"@, behind);
    laws::middle_is_contained(before, "remote port forwarding failed"@, behind);
    laws::middle_is_contained(before, "administratively prohibited"@, behind);
    laws::middle_is_contained(before, "kex_exchange_identification"@, behind);
}

/// The last error of ssh is kept, and a line that reports none changes nothing.
pub proof fn last_ssh_error_is_kept(kept: Option<Seq<char>>, before: Seq<char>, behind: Seq<char>)
    ensures
        output::ssh_cause(kept, before + "Permission denied"@ + behind) == Some(
            before + "Permission denied"@ + behind,
        ),
        output::ssh_cause(kept, "ssh: "@ + behind) == Some("ssh: "@ + behind),
        forall|line: Seq<char>|
            !output::is_ssh_error(line) ==> #[trigger] output::ssh_cause(kept, line) == kept,
{
    ssh_errors_are_seen(before, behind);
}

/// A line of cloudflared that is marked as an error or begins with a failure reports one. One
/// with an HTTP status tells more than one that is marked, and that more than any other.
pub proof fn cloudflared_errors_are_seen(before: Seq<char>, behind: Seq<char>, line: Seq<char>)
    ensures
        output::is_cloudflared_error(before + " ERR "@ + behind),
        output::is_cloudflared_error("ERR "@ + behind),
        output::is_cloudflared_error("failed "@ + behind),
        output::telling(before + "status_code="@ + behind) == 3,
        output::telling(before + "Too Many Requests"@ + behind) == 3,
        output::telling(before + " ERR "@ + behind) >= 2,
        output::telling("ERR "@ + behind) >= 2,
        output::telling("failed "@ + behind) >= 1,
        output::telling(line) <= 3,
        output::telling(line) == 3 ==> text::contains(line, "status_code="@) || text::contains(
            line,
            "Too Many Requests"@,
        ),
        !output::is_cloudflared_error(line) && output::telling(line) < 3 ==> output::telling(line)
            == 0,
{
    laws::middle_is_contained(before, " ERR "@, behind);
    laws::middle_is_contained(before, "ERR "@, behind);
    laws::middle_is_contained(before, "failed "@, behind);
    laws::middle_is_contained(before, "status_code="@, behind);
    laws::middle_is_contained(before, "Too Many Requests"@, behind);
}

/// cloudflared is told the local URL behind `--url`, as its last argument.
pub proof fn cloudflared_leads_to_local_url(local_url: &str, args: Vec<String>)
    requires
        call_ensures(command::tunnel_args, (TunnelProgram::Cloudflared, local_url), Ok(args)),
    ensures
        args@.len() >= 2,
        args@[0]@ == "tunnel"@,
        args@[args@.len() - 2]@ == "--url"@,
        args@[args@.len() - 1]@ == local_url@,
{
    let views = text::views(args@);
    assert(views.len() == args@.len());
    assert(views[0] == args@[0]@);
    assert(views[args@.len() - 2] == args@[args@.len() - 2]@);
    assert(views[args@.len() - 1] == args@[args@.len() - 1]@);
}

/// ssh is told to forward a remote port to the host and the port of the local URL, and the
/// service to connect to, as its last arguments; without a host or a port it is not started.
pub proof fn ssh_leads_to_local_url(
    program: TunnelProgram,
    local_url: &str,
    res: Result<Vec<String>, String>,
    scheme: Seq<char>,
    host: Option<Seq<char>>,
    port: Option<u16>,
    written: Seq<char>,
)
    requires
        call_ensures(command::tunnel_args, (program, local_url), res),
        program != TunnelProgram::Cloudflared,
        weburl::url_parts(local_url@) == Ok::<
            (Seq<char>, Option<Seq<char>>, Option<u16>, Seq<char>),
            Seq<char>,
        >((scheme, host, port, written)),
    ensures
        res is Ok <==> host is Some && port is Some,
        res matches Ok(args) ==> {
            let n = args@.len() as int;
            &&& n >= 5
            &&& args@[n - 3]@ == "-R"@
            &&& args@[n - 2]@ == (if program == TunnelProgram::Pinggy {
                "0"@
            } else {
                "80"@
            }) + ":"@ + host->Some_0 + ":"@ + decimal::decimal(port->Some_0 as nat)
            &&& args@[n - 5]@ == "-p"@
            &&& program == TunnelProgram::Pinggy ==> args@[n - 1]@ == "free.pinggy.io"@
                && decimal::parsed(args@[n - 4]@) == Some(443u64)
            &&& program == TunnelProgram::Serveo ==> args@[n - 1]@ == "serveo.net"@
                && decimal::parsed(args@[n - 4]@) == Some(22u64)
        },
{
    reveal_strlit("0");
    reveal_strlit("80");
    decimal::parsed_inverts_decimal(443);
    decimal::parsed_inverts_decimal(22);
    assert(decimal::decimal(0) =~= "0"@);
    assert(decimal::decimal(80) =~= "80"@) by {
        assert(decimal::decimal(8) =~= seq!['8']);
        assert(decimal::decimal(80) == decimal::decimal(8).push('0'));
    }
    if let Ok(args) = res {
        let views = text::views(args@);
        let n = args@.len() as int;
        assert(views.len() == n);
        assert forall|i: int| 0 <= i < n implies #[trigger] views[i] == args@[i]@ by {}
        if program == TunnelProgram::Serveo {
            let head = command::ssh_args_for(false);
            assert(views == command::serveo_args_for(host->Some_0, port->Some_0));
        } else {
            assert(views == command::pinggy_args_for(host->Some_0, port->Some_0));
        }
        assert(views[n - 5] == args@[n - 5]@);
        assert(views[n - 4] == args@[n - 4]@);
        assert(views[n - 3] == args@[n - 3]@);
        assert(views[n - 2] == args@[n - 2]@);
        assert(views[n - 1] == args@[n - 1]@);
    }
}

/// Where the automatic choice gives a provider up or passes it over, the next one comes at once;
/// only after all three is it over, and a provider that starts is the one that is used.
pub proof fn providers_can_be_tried(
    cloudflared: bool,
    ssh: bool,
    native: bool,
    order: Vec<ProviderKind>,
)
    requires
        call_ensures(crate::provider::auto::auto_provider_order, (cloudflared, ssh, native), order),
    ensures
        order@.contains(ProviderKind::Cloudflared) <==> cloudflared,
        order@.contains(ProviderKind::Pinggy) <==> ssh,
        order@.contains(ProviderKind::Native) <==> native,
        !order@.contains(ProviderKind::Auto),
        cloudflared ==> order@[0] == ProviderKind::Cloudflared,
        native ==> order@.last() == ProviderKind::Native,
        order@.no_duplicates(),
{
    let usable = |provider: ProviderKind| crate::provider::auto::is_usable(provider, cloudflared, ssh, native);
    let none = Seq::<ProviderKind>::empty();
    let one = none.push(ProviderKind::Cloudflared);
    let two = one.push(ProviderKind::Pinggy);
    let all = two.push(ProviderKind::Native);
    reveal(Seq::filter);
    assert(one.drop_last() =~= none);
    assert(two.drop_last() =~= one);
    assert(all.drop_last() =~= two);
    assert(all =~= crate::provider::auto::concrete_providers());
    assert(none.filter(usable) =~= none);
    let a = if cloudflared {
        one
    } else {
        none
    };
    let b = if ssh {
        a.push(ProviderKind::Pinggy)
    } else {
        a
    };
    let c = if native {
        b.push(ProviderKind::Native)
    } else {
        b
    };
    assert(one.filter(usable) =~= a);
    assert(two.filter(usable) =~= b);
    assert(all.filter(usable) =~= c);
    assert(order@ == c);
    if cloudflared {
        assert(c[0] == ProviderKind::Cloudflared);
    }
    if ssh {
        assert(c[a.len() as int] == ProviderKind::Pinggy);
    }
    if native {
        assert(c[b.len() as int] == ProviderKind::Native);
    }
}

/// What a provider is called, and why it cannot be tried.
pub proof fn missing_providers_are_explained(
    provider: ProviderKind,
    available: bool,
    res: Result<(), String>,
)
    requires
        provider != ProviderKind::Auto,
        call_ensures(crate::provider::auto::provider_auto_availability, (provider, available), res),
    ensures
        res is Ok <==> available,
        res matches Err(reason) ==> {
            &&& provider == ProviderKind::Cloudflared ==> text::starts_with(
                reason@,
                "cloudflared"@,
            )
            &&& provider == ProviderKind::Pinggy ==> text::starts_with(reason@, "ssh"@)
            &&& provider == ProviderKind::Native ==> text::contains(reason@, "BEAM_RELAY_URL"@)
        },
{
    reveal_strlit("cloudflared is not installed or not on PATH");
    reveal_strlit("cloudflared");
    reveal_strlit("ssh is not installed or not on PATH");
    reveal_strlit("ssh");
    reveal_strlit("no BEAM_RELAY_URL is configured and the default local relay is not reachable");
    reveal_strlit("BEAM_RELAY_URL");
    assert("cloudflared is not installed or not on PATH"@.subrange(0, 11) =~= "cloudflared"@);
    assert("ssh is not installed or not on PATH"@.subrange(0, 3) =~= "ssh"@);
    let why = "no BEAM_RELAY_URL is configured and the default local relay is not reachable"@;
    assert(why.subrange(3, 17) =~= "BEAM_RELAY_URL"@);
    assert(text::occurs_at(why, "BEAM_RELAY_URL"@, 3));
}

/// Once a public link is there, its status names the provider, and every provider that was tried
/// before it in vain.
pub proof fn ready_status_tells_the_way(
    provider_name: Seq<char>,
    attempts: Seq<AttemptView>,
    i: int,
)
    ensures
        text::starts_with(
            crate::provider::auto::ready_text(provider_name, attempts),
            "Public link ready via "@ + provider_name,
        ),
        0 <= i < attempts.len() ==> text::contains(
            crate::provider::auto::ready_text(provider_name, attempts),
            attempts[i].provider.id() + " "@ + attempts[i].state,
        ),
        attempts.len() == 0 ==> crate::provider::auto::ready_text(provider_name, attempts)
            == "Public link ready via "@ + provider_name,
{
    broadcast use {laws::front_is_contained, laws::back_is_contained, laws::text_contains_itself};

    let head = "Public link ready via "@ + provider_name;
    let briefs = attempts.map_values(|attempt: AttemptView| attempt.brief());
    let tail = " after "@ + text::joined(briefs, ", "@);
    laws::middle_is_contained(Seq::empty(), head, tail);
    assert(head + " after "@ + text::joined(briefs, ", "@) =~= head + tail);
    laws::middle_is_contained(Seq::empty(), head, Seq::empty());
    assert(head + Seq::<char>::empty() =~= head);
    if 0 <= i < attempts.len() {
        lemma_part_is_joined(briefs, ", "@, i);
        assert(briefs[i] == attempts[i].brief());
    }
}

pub(crate) proof fn lemma_part_is_joined(parts: Seq<Seq<char>>, separator: Seq<char>, i: int)
    requires
        0 <= i < parts.len(),
    ensures
        text::contains(text::joined(parts, separator), parts[i]),
    decreases parts.len(),
{
    broadcast use {laws::front_is_contained, laws::back_is_contained, laws::text_contains_itself};

    if parts.len() > 1 && i < parts.len() - 1 {
        lemma_part_is_joined(parts.drop_last(), separator, i);
        assert(parts.drop_last()[i] == parts[i]);
    }
}

/// Where no provider could be started, the error tells of each attempt which provider it was, how
/// it ended and why, names the native relay where it was tried, and says what can be done.
pub proof fn failure_explains_itself(attempts: Seq<AttemptView>, i: int)
    requires
        0 <= i < attempts.len(),
    ensures
        text::contains(
            crate::provider::auto::failure_text(attempts),
            "- "@ + (attempts[i].provider.id() + " "@ + attempts[i].state + ": "@
                + attempts[i].detail) + "\n"@,
        ),
        text::contains(crate::provider::auto::failure_text(attempts), "Hints: install cloudflared"@),
        text::contains(crate::provider::auto::failure_text(attempts), "--local"@),
        attempts[i].provider == ProviderKind::Native ==> text::contains(
            crate::provider::auto::failure_text(attempts),
            "cloudflared -> pinggy"@ + " -> native"@,
        ),
{
    broadcast use {laws::front_is_contained, laws::back_is_contained, laws::text_contains_itself};

    crate::provider::auto::failure_names_every_attempt(attempts, i);
    let hints =
        "\nHints: install cloudflared, ensure ssh is available for Pinggy, set BEAM_RELAY_URL or run beam-relay, or use --local."@;
    reveal_strlit(
        "\nHints: install cloudflared, ensure ssh is available for Pinggy, set BEAM_RELAY_URL or run beam-relay, or use --local.",
    );
    reveal_strlit("Hints: install cloudflared");
    reveal_strlit("--local");
    assert(hints.subrange(1, 27) =~= "Hints: install cloudflared"@);
    assert(text::occurs_at(hints, "Hints: install cloudflared"@, 1));
    assert(hints.subrange(hints.len() - 8, hints.len() - 1) =~= "--local"@);
    assert(text::occurs_at(hints, "--local"@, hints.len() - 8));
    if attempts[i].provider == ProviderKind::Native {
        assert(crate::provider::auto::tried_native(attempts));
        reveal_strlit("Auto provider order: cloudflared -> pinggy");
        reveal_strlit("cloudflared -> pinggy");
        let head = "Beam could not start global sharing automatically.\n\n"@;
        let order = "Auto provider order: cloudflared -> pinggy"@;
        let wanted = "cloudflared -> pinggy"@ + " -> native"@;
        let both = head + order + " -> native"@;
        let at = head.len() as int + 21;
        assert(both.subrange(at, at + wanted.len()) =~= wanted);
        assert(text::occurs_at(both, wanted, at));
        assert(text::contains(both, wanted));
    }
}

/// The providers are called on the command line what they are called everywhere.
pub proof fn providers_have_their_names(provider: ProviderKind, name: &'static str)
    requires
        call_ensures(ProviderKind::name, (&provider,), name),
    ensures
        name@ == match provider {
            ProviderKind::Auto => "auto"@,
            ProviderKind::Cloudflared => "cloudflared"@,
            ProviderKind::Pinggy => "pinggy"@,
            ProviderKind::Native => "native"@,
        },
{
}

/// A request that comes from a relay goes to the local server as it came: with its method, its
/// path and its query, behind the address of the server, and with its headers.
pub proof fn request_reaches_local_server(
    event: ReaderEvent,
    request_id: u64,
    method: String,
    path: String,
    query: Option<String>,
    headers: Vec<HeaderPair>,
    step: ReaderStep,
    local_origin: &str,
    method_text: &str,
    path_text: &str,
    query_text: Option<&str>,
    res: Result<ProxyRequest, String>,
)
    requires
        event == (ReaderEvent::Message {
            message: RelayToClientMessage::RequestStart {
                request_id,
                method,
                path,
                query,
                headers,
            },
        }),
        call_ensures(native::react, (event,), step),
        method_text@ == method@,
        path_text@ == path@,
        text::optional_str(query_text) == text::optional(query),
        call_ensures(
            native::proxy_request,
            (local_origin, method_text, path_text, query_text, &headers),
            res,
        ),
        headers::is_header_name(method@),
        headers@.len() <= 6_554,
    ensures
        step == (ReaderStep::Proxy { request_id, method, path, query, headers }),
        res matches Ok(request) && request.method@ == method@ && request.url@ == local_origin@
            + path@ + (match query {
            Some(query) => "?"@ + query@,
            None => Seq::empty(),
        }) && headers::header_entries(request.headers) == headers::filled(
            relay_protocol::pair_views(headers@),
        ),
{
    if let Some(query) = query {
        assert(local_origin@ + path@ + ("?"@ + query@) =~= local_origin@ + path@ + "?"@ + query@);
    } else {
        assert(local_origin@ + path@ + Seq::<char>::empty() =~= local_origin@ + path@);
    }
}

/// A client stops where the relay ends the session or the connection, or cannot be understood,
/// and its status says why; nothing else stops it.
pub proof fn client_stops_with_the_relay(event: ReaderEvent, step: ReaderStep)
    requires
        call_ensures(native::react, (event,), step),
    ensures
        step is Stop <==> (event is Closed || event is Failed || event is Unreadable || (
        event matches ReaderEvent::Message { message } && message is SessionClose)),
        event is Other <==> step is Continue,
        event matches ReaderEvent::Failed { error } ==> (step matches ReaderStep::Stop { status }
            && text::ends_with(status@, error@)),
        event matches ReaderEvent::Unreadable { error } ==> (
        step matches ReaderStep::Stop { status } && text::ends_with(status@, error@)),
        event matches ReaderEvent::Message {
            message: RelayToClientMessage::SessionClose { reason },
        } ==> (step matches ReaderStep::Stop { status } && text::ends_with(status@, reason@)),
{
    match event {
        ReaderEvent::Failed { error } => {
            laws::middle_is_contained(
                "Beam native relay disconnected: "@,
                error@,
                Seq::empty(),
            );
        },
        ReaderEvent::Unreadable { error } => {
            laws::middle_is_contained(
                "Beam native relay protocol error: "@,
                error@,
                Seq::empty(),
            );
        },
        ReaderEvent::Message { message } => {
            if let RelayToClientMessage::SessionClose { reason } = message {
                laws::middle_is_contained("Beam native relay closed: "@, reason@, Seq::empty());
            }
        },
        _ => {},
    }
}

/// What the local server answers goes to the relay under the id of the request: its status and
/// all headers that do not belong to one connection, each chunk of its body with all of its
/// bytes, and its end.
pub proof fn answer_reaches_relay(
    request_id: u64,
    event: ProxyEvent,
    out: ProxyOutput,
    name: Seq<char>,
    value: Seq<char>,
)
    requires
        call_ensures(native::relay_output, (request_id, &event), out),
    ensures
        event matches ProxyEvent::Head { status: given, headers } ==> (
        out matches ProxyOutput::Control {
            message: ClientToRelayMessage::ResponseStart {
                request_id: id,
                status,
                headers: pairs,
            },
        } && id == request_id && status == given && (relay_protocol::pair_views(pairs@).contains(
            (name, value),
        ) <==> !headers::laws::belongs_to_connection(name) && exists|i: int|
            0 <= i < headers::header_entries(headers).len() && (
            #[trigger] headers::header_entries(headers)[i]).0 == name && headers::visible_text(
                headers::header_entries(headers)[i].1,
            ) == Some(value))),
        event matches ProxyEvent::Chunk { bytes } ==> (out matches ProxyOutput::Body { frame }
            && frame@.len() == 8 + bytes@.len() && relay_protocol::big_endian(frame@.take(8))
            == request_id && frame@.skip(8) == bytes@),
        event is End ==> (out matches ProxyOutput::Control {
            message: ClientToRelayMessage::ResponseEnd { request_id: id },
        } && id == request_id),
{
    if let ProxyEvent::Head { headers, .. } = event {
        headers::laws::other_headers_are_passed_on(
            headers::header_entries(headers),
            HeaderRule::Response,
            name,
            value,
        );
    }
    if let ProxyEvent::Chunk { bytes } = event {
        relay_protocol::frame_reads_back(request_id, bytes@);
        let frame = relay_protocol::body_frame(request_id, bytes@);
        assert(frame.len() == frame.take(8).len() + frame.skip(8).len());
    }
}

/// Where the local server fails, the visitor is told so by a bad gateway, with the reason.
pub proof fn failure_reaches_relay(request_id: u64, event: ProxyEvent, out: ProxyOutput)
    requires
        call_ensures(native::relay_output, (request_id, &event), out),
        event is Unreachable || event is Broken,
    ensures
        out matches ProxyOutput::Control {
            message: ClientToRelayMessage::ResponseError { request_id: id, status, message },
        } && id == request_id && status == 502 && (match event {
            ProxyEvent::Unreachable { error } => text::ends_with(message@, error@)
                && text::contains(message@, "could not reach its local server"@),
            ProxyEvent::Broken { error } => text::ends_with(message@, error@),
            _ => false,
        }),
{
    broadcast use {laws::front_is_contained, laws::back_is_contained, laws::text_contains_itself};

    match event {
        ProxyEvent::Unreachable { error } => {
            let head = "Beam could not reach its local server: "@;
            laws::middle_is_contained(head, error@, Seq::empty());
            reveal_strlit("Beam could not reach its local server: ");
            reveal_strlit("could not reach its local server");
            assert(head.subrange(5, 37) =~= "could not reach its local server"@);
            assert(text::occurs_at(head, "could not reach its local server"@, 5));
            assert(text::contains(head, "could not reach its local server"@));
        },
        ProxyEvent::Broken { error } => {
            laws::middle_is_contained(
                "Beam relay response stream failed: "@,
                error@,
                Seq::empty(),
            );
        },
        _ => {},
    }
}

/// A relay is asked for a session of one hour from now.
pub proof fn relay_session_lasts_an_hour(now: u64, res: Option<RelaySessionCreateRequest>)
    requires
        call_ensures(native::session_request_for, (now,), res),
    ensures
        res is Some <==> now <= u64::MAX - 3_600,
        res matches Some(request) ==> request.expires_at_unix - now == 3_600,
{
}

/// Only a relay on this machine is asked whether it is there before it is tried, and at the
/// place for that.
pub proof fn only_local_relays_are_asked(relay_url: &str, res: Option<String>)
    requires
        call_ensures(native::health_url, (relay_url,), res),
    ensures
        res is Some ==> weburl::host_of(relay_url@) == Some("127.0.0.1"@) || weburl::host_of(
            relay_url@,
        ) == Some("localhost"@),
        weburl::host_of(relay_url@) == Some("127.0.0.1"@) || weburl::host_of(relay_url@) == Some(
            "localhost"@,
        ) ==> text::optional(res) == weburl::url_joined(relay_url@, "healthz"@),
{
}

/// A relay that is configured is the one that is used; without one, the one at the default place
/// is.
pub proof fn configured_relay_is_used(
    configured: Option<String>,
    base: Result<String, &'static str>,
)
    requires
        call_ensures(native::relay_base_url, (configured,), base),
    ensures
        base is Ok <==> weburl::url_parts(
            match configured {
                Some(url) => url@,
                None => "http://127.0.0.1:8787"@,
            },
        ) is Ok,
        base matches Err(error) ==> error@ == "invalid BEAM_RELAY_URL"@,
{
}

/// A session is created at `v1/sessions` of the relay.
pub proof fn sessions_are_created_at_their_place(
    relay_url: &str,
    res: Result<String, &'static str>,
)
    requires
        call_ensures(native::create_session_url, (relay_url,), res),
    ensures
        match res {
            Ok(url) => weburl::url_joined(relay_url@, "v1/sessions"@) == Some(url@),
            Err(_) => weburl::url_joined(relay_url@, "v1/sessions"@) is None,
        },
{
}

} // verus!
