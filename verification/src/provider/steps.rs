//! What every call around a tunnel does, from the lines of its program to the choice of the
//! next provider.
use vstd::prelude::*;

use crate::decimal;
use crate::duration::Duration;
use crate::provider::auto::{AutoEvent, AutoStart, AutoStep, ProviderAttempt};
use crate::provider::command;
use crate::provider::native;
use crate::provider::output;
use crate::provider::public_url;
use crate::provider::startup;
use crate::provider::startup::{ReadEvent, StartupWatch, TunnelProgram, WatchStep};
use crate::provider::ProviderKind;
use crate::relay_protocol::HeaderPair;
use crate::text;
use crate::text::laws;
use crate::weburl;

verus! {

/// One of the words stands in the line.
pub open spec fn says_any(line: Seq<char>, words: Seq<Seq<char>>) -> bool {
    exists|i: int| 0 <= i < words.len() && text::contains(line, #[trigger] words[i])
}

/// What ssh says where it fails.
pub open spec fn ssh_failures() -> Seq<Seq<char>> {
    seq![
        "Permission denied"@,
        "Host key verification failed"@,
        "Could not resolve hostname"@,
        "Connection timed out"@,
        "Connection refused"@,
        "remote port forwarding failed"@,
        "administratively prohibited"@,
        "kex_exchange_identification"@,
    ]
}

proof fn lemma_ssh_failures(line: Seq<char>)
    ensures
        output::is_ssh_error(line) <==> text::starts_with(line, "ssh: "@) || says_any(
            line,
            ssh_failures(),
        ),
{
    let words = ssh_failures();
    assert(words[0] == "Permission denied"@ && words[1] == "Host key verification failed"@
        && words[2] == "Could not resolve hostname"@ && words[3] == "Connection timed out"@
        && words[4] == "Connection refused"@ && words[5] == "remote port forwarding failed"@
        && words[6] == "administratively prohibited"@ && words[7]
        == "kex_exchange_identification"@);
    if output::is_ssh_error(line) && !text::starts_with(line, "ssh: "@) {
        assert(says_any(line, words));
    }
    if says_any(line, words) {
        let i = choose|i: int| 0 <= i < words.len() && text::contains(line, #[trigger] words[i]);
        assert(i == 0 || i == 1 || i == 2 || i == 3 || i == 4 || i == 5 || i == 6 || i == 7);
    }
}

/// A line of ssh reports a failure if it begins as one or says one of the failures, and only
/// then.
pub proof fn ssh_failures_are_told_apart(line: &str, ssh: bool, pinggy: bool)
    requires
        call_ensures(output::seems_ssh_provider_error, (line,), ssh),
        call_ensures(output::seems_pinggy_error, (line,), pinggy),
    ensures
        ssh <==> text::starts_with(line@, "ssh: "@) || says_any(line@, ssh_failures()),
        pinggy == ssh,
{
    lemma_ssh_failures(line@);
}

/// The last line of ssh that reports a failure is kept; other lines change nothing.
pub proof fn last_failure_of_ssh_is_kept(
    kept: &mut Option<String>,
    line: &str,
    same: &mut Option<String>,
)
    requires
        call_ensures(output::record_ssh_provider_startup_error, (kept, line), ()),
        call_ensures(output::record_pinggy_startup_error, (same, line), ()),
    ensures
        text::starts_with(line@, "ssh: "@) || says_any(line@, ssh_failures()) ==> text::optional(
            *final(kept),
        ) == Some(line@) && text::optional(*final(same)) == Some(line@),
        !(text::starts_with(line@, "ssh: "@) || says_any(line@, ssh_failures()))
            ==> text::optional(*final(kept)) == text::optional(*old(kept)) && text::optional(
            *final(same),
        ) == text::optional(*old(same)),
{
    lemma_ssh_failures(line@);
}

/// A line of cloudflared reports a failure if it is marked as an error or begins with one, and
/// only then; an HTTP status tells most of it, then the mark.
pub proof fn cloudflared_failures_are_ranked(line: &str, failed: bool, rank: u8)
    requires
        call_ensures(output::seems_cloudflared_error, (line,), failed),
        call_ensures(output::cloudflared_error_priority, (line,), rank),
    ensures
        ({
            let marked = text::contains(line@, " ERR "@) || text::starts_with(line@, "ERR "@);
            let coded = says_any(line@, seq!["status_code="@, "Too Many Requests"@]);
            &&& failed <==> marked || text::starts_with(line@, "failed "@)
            &&& rank == 3 <==> coded
            &&& rank == 2 <==> marked && !coded
            &&& rank == 1 <==> failed && !marked && !coded
            &&& rank == 0 <==> !failed && !coded
        }),
{
    let codes = seq!["status_code="@, "Too Many Requests"@];
    assert(codes[0] == "status_code="@ && codes[1] == "Too Many Requests"@);
    let coded = says_any(line@, codes);
    if text::contains(line@, codes[0]) || text::contains(line@, codes[1]) {
        assert(coded);
    }
    if coded {
        let i = choose|i: int| 0 <= i < codes.len() && text::contains(line@, #[trigger] codes[i]);
        assert(i == 0 || i == 1);
    }
    reveal_strlit("failed ");
    reveal_strlit("failed to ");
    if text::starts_with(line@, "failed to "@) {
        let front = line@.subrange(0, 10);
        assert(front == "failed to "@);
        assert(line@.subrange(0, 7) =~= "failed "@) by {
            assert forall|i: int| 0 <= i < 7 implies line@[i] == "failed "@[i] by {
                assert(front[i] == line@[i]);
            }
        }
    }
}

/// A failure of cloudflared is kept until one comes that tells more; a line that reports none
/// changes nothing.
pub proof fn telling_failure_of_cloudflared_is_kept(
    kept: &mut Option<String>,
    line: &str,
    failed: bool,
    rank: u8,
    kept_line: &str,
    kept_rank: u8,
)
    requires
        call_ensures(output::record_cloudflared_startup_error, (kept, line), ()),
        call_ensures(output::seems_cloudflared_error, (line,), failed),
        call_ensures(output::cloudflared_error_priority, (line,), rank),
        call_ensures(output::cloudflared_error_priority, (kept_line,), kept_rank),
        *old(kept) is Some ==> kept_line@ == old(kept)->Some_0@,
    ensures
        !failed ==> text::optional(*final(kept)) == text::optional(*old(kept)),
        failed && *old(kept) is None ==> text::optional(*final(kept)) == Some(line@),
        failed && *old(kept) is Some ==> text::optional(*final(kept)) == (if rank > kept_rank {
            Some(line@)
        } else {
            Some(kept_line@)
        }),
{
}

/// A link that is found stands in the line, has a host of the provider, and is the first that
/// has.
pub proof fn first_link_of_provider_is_found(
    line: &str,
    pattern: &str,
    res: Option<String>,
    found: Seq<Seq<char>>,
    i: int,
    host: Seq<char>,
)
    requires
        call_ensures(public_url::extract_pinggy_public_url, (line, pattern), res),
        public_url::regex_matches(pattern@, line@) == Some(found),
        0 <= i < found.len(),
        weburl::host_of(found[i]) == Some(host),
    ensures
        text::ends_with(host, ".pinggy.link"@) ==> res is Some,
        res matches Some(url) ==> text::contains(line@, url@) && (weburl::host_of(
            url@,
        ) matches Some(own) && (text::ends_with(own, ".pinggy.link"@) || text::ends_with(
            own,
            ".pinggy.io"@,
        )) && own != "dashboard.pinggy.io"@),
        i == 0 && text::ends_with(host, ".pinggy.link"@) ==> text::optional(res) == Some(found[0]),
{
    reveal_strlit(".pinggy.link");
    reveal_strlit("dashboard.pinggy.io");
    if text::ends_with(host, ".pinggy.link"@) {
        let n = host.len() as int;
        if host == "dashboard.pinggy.io"@ {
            let tail = host.subrange(n - 12, n);
            assert(tail[11] == 'k');
            assert(host[n - 1] == 'o');
        }
        lemma_some_link(found, i);
    }
}

proof fn lemma_some_link(found: Seq<Seq<char>>, i: int)
    requires
        0 <= i < found.len(),
        public_url::HostRule::Pinggy.accepts_url(found[i]),
    ensures
        public_url::first_accepted(found, public_url::HostRule::Pinggy) is Some,
    decreases found.len(),
{
    if i > 0 && !public_url::HostRule::Pinggy.accepts_url(found[0]) {
        assert(found.skip(1)[i - 1] == found[i]);
        lemma_some_link(found.skip(1), i - 1);
    }
}

/// A text without terminal sequences is left as it is, and what is left of a text stands in it
/// in the same order.
pub proof fn plain_text_is_left(value: &str, res: String)
    requires
        call_ensures(public_url::strip_ansi, (value,), res),
    ensures
        !value@.contains('\u{1b}') ==> res@ == value@,
        res@.len() <= value@.len(),
{
    lemma_stripped(value@);
}

proof fn lemma_stripped(value: Seq<char>)
    ensures
        !value.contains('\u{1b}') ==> public_url::stripped(value) == value,
        public_url::stripped(value).len() <= value.len(),
    decreases value.len(),
{
    if value.len() > 0 {
        if value[0] == '\u{1b}' && value.len() > 1 && value[1] == '[' {
            let rest = public_url::behind_sequence(value.skip(2));
            lemma_behind(value.skip(2));
            lemma_stripped(rest);
            assert(value.contains(value[0]));
        } else {
            let rest = value.skip(1);
            lemma_stripped(rest);
            if !value.contains('\u{1b}') {
                if rest.contains('\u{1b}') {
                    let k = choose|k: int| 0 <= k < rest.len() && rest[k] == '\u{1b}';
                    assert(value[k + 1] == '\u{1b}');
                }
                assert(seq![value[0]] + rest =~= value);
            }
        }
    }
}

proof fn lemma_behind(value: Seq<char>)
    ensures
        public_url::behind_sequence(value).len() <= value.len(),
    decreases value.len(),
{
    if value.len() > 0 && !('@' <= value[0] <= '~') {
        lemma_behind(value.skip(1));
    }
}

/// A tunnel's public URL is handed on once, and is one of HTTPS; reading goes on from line to
/// line and ends with the output, and what was noted of a failure outlives it.
pub proof fn output_is_read_line_by_line(
    watch: &mut StartupWatch,
    program: TunnelProgram,
    event: ReadEvent,
    step: WatchStep,
)
    requires
        call_ensures(StartupWatch::read, (watch, program, &event), step),
    ensures
        step.done <==> !(event is Line),
        old(watch).url_sent ==> final(watch).url_sent && step.url is None,
        step.url is Some ==> event is Line && final(watch).url_sent,
        step.url is None ==> final(watch).url_sent == old(watch).url_sent,
        step.url matches Some(url) ==> text::starts_with(url@, "https://"@),
        event is End ==> step.status is None,
        event matches ReadEvent::Failed { error } ==> step.status is Some && text::ends_with(
            step.status->Some_0@,
            error@,
        ),
        !(event is Line) ==> text::optional(final(watch).startup_error) == text::optional(
            old(watch).startup_error,
        ),
        old(watch).startup_error is Some ==> final(watch).startup_error is Some,
{
    let view = step@;
    assert(view == old(watch).reaction(program, event));
    if let ReadEvent::Failed { error } = event {
        laws::middle_is_contained(program.process() + " read error: "@, error@, Seq::empty());
    }
}

/// What is said of a program that cannot be started or looked at names it.
pub proof fn program_errors_name_it(
    program: TunnelProgram,
    starting: &'static str,
    spawn: &'static str,
    query: String,
)
    requires
        call_ensures(TunnelProgram::starting_status, (program,), starting),
        call_ensures(TunnelProgram::spawn_error, (program,), spawn),
        call_ensures(TunnelProgram::query_error, (program,), query),
    ensures
        starting@ == match program {
            TunnelProgram::Cloudflared => "Starting cloudflared tunnel"@,
            TunnelProgram::Pinggy => "Starting Pinggy tunnel over SSH"@,
            TunnelProgram::Serveo => "Starting Serveo tunnel over SSH"@,
        },
        program == TunnelProgram::Cloudflared ==> spawn@
            == "failed to spawn cloudflared. Install it and ensure it is on PATH"@,
        program == TunnelProgram::Pinggy ==> spawn@
            == "failed to spawn ssh for Pinggy. Install OpenSSH and ensure it is on PATH"@,
        program == TunnelProgram::Serveo ==> spawn@
            == "failed to spawn ssh for Serveo. Install OpenSSH and ensure it is on PATH"@,
        text::contains(query@, program.process()),
{
    broadcast use {laws::front_is_contained, laws::back_is_contained, laws::text_contains_itself};

}

/// cloudflared is tried first, then Pinggy, then the native relay, and then it is given up.
pub proof fn next_provider_is_tried(start: AutoStart, step: AutoStep)
    requires
        start.attempts@.len() <= 3,
        call_ensures(AutoStart::next, (&start,), step),
    ensures
        start.attempts@.len() == 0 <==> step == (AutoStep::Try {
            provider: ProviderKind::Cloudflared,
        }),
        start.attempts@.len() == 1 <==> step == (AutoStep::Try { provider: ProviderKind::Pinggy }),
        start.attempts@.len() == 2 <==> step == (AutoStep::Try { provider: ProviderKind::Native }),
        start.attempts@.len() == 3 <==> step is GiveUp,
{
    assert(crate::provider::auto::concrete_providers()[0] == ProviderKind::Cloudflared);
    assert(crate::provider::auto::concrete_providers()[1] == ProviderKind::Pinggy);
    assert(crate::provider::auto::concrete_providers()[2] == ProviderKind::Native);
}

/// The provider that opens a tunnel is the one that was tried; one that does not is noted with
/// the reason, those before it stay noted, and the next one is tried.
pub proof fn outcome_of_a_try_is_noted(
    start: &mut AutoStart,
    event: AutoEvent,
    step: AutoStep,
    i: int,
)
    requires
        old(start).attempts@.len() < 3,
        call_ensures(AutoStart::report, (start, event), step),
    ensures
        ({
            let n = old(start).attempts@.len() as int;
            let tried = if n == 0 {
                ProviderKind::Cloudflared
            } else if n == 1 {
                ProviderKind::Pinggy
            } else {
                ProviderKind::Native
            };
            &&& event is Started <==> step is Ready
            &&& step matches AutoStep::Ready { provider, status } ==> provider == tried
                && text::starts_with(status@, "Public link ready via "@ + tried.id())
            &&& event is Started ==> *final(start) == *old(start)
            &&& !(event is Started) ==> {
                &&& final(start).attempts@.len() == n + 1
                &&& final(start).attempts@[n].provider == tried
                &&& 0 <= i < n ==> final(start).attempts@[i]@ == old(start).attempts@[i]@
                &&& n < 2 ==> step is Try
                &&& n == 2 ==> step is GiveUp
            }
            &&& event matches AutoEvent::Failed { error } ==> final(start).attempts@[n].detail@
                == error@ && final(start).attempts@[n].state@ == "failed"@
            &&& event is Unavailable ==> final(start).attempts@[n].state@ == "unavailable"@
        }),
{
    let providers = crate::provider::auto::concrete_providers();
    assert(providers[0] == ProviderKind::Cloudflared && providers[1] == ProviderKind::Pinggy
        && providers[2] == ProviderKind::Native);
    let before = crate::provider::auto::attempt_views(old(start).attempts@);
    let after = crate::provider::auto::attempt_views(final(start).attempts@);
    let n = old(start).attempts@.len() as int;
    if event is Started {
        crate::provider::laws::ready_status_tells_the_way(providers[n].id(), before, 0);
    } else {
        assert(before.len() == n);
        assert(after.len() == final(start).attempts@.len());
        assert(after[n] == final(start).attempts@[n]@);
        if 0 <= i < n {
            assert(after[i] == before[i]);
            assert(after[i] == final(start).attempts@[i]@);
            assert(before[i] == old(start).attempts@[i]@);
        }
    }
}

/// What came of the providers is told with each of them.
pub proof fn attempts_are_told(
    name: &str,
    attempts: &[ProviderAttempt],
    ready: String,
    failure: String,
    i: int,
)
    requires
        call_ensures(crate::provider::auto::format_auto_ready_status, (name, attempts), ready),
        call_ensures(crate::provider::auto::format_auto_startup_error, (attempts,), failure),
    ensures
        text::starts_with(ready@, "Public link ready via "@ + name@),
        0 <= i < attempts@.len() ==> {
            &&& text::contains(
                ready@,
                attempts@[i].provider.id() + " "@ + attempts@[i].state@,
            )
            &&& text::contains(
                failure@,
                "- "@ + (attempts@[i].provider.id() + " "@ + attempts@[i].state@ + ": "@
                    + attempts@[i].detail@) + "\n"@,
            )
        },
{
    let views = crate::provider::auto::attempt_views(attempts@);
    crate::provider::laws::ready_status_tells_the_way(name@, views, i);
    if 0 <= i < attempts@.len() {
        assert(views[i] == attempts@[i]@);
        crate::provider::laws::failure_explains_itself(views, i);
    }
}

/// The relay that is used is the configured one, or the one on this machine, as its URL is
/// written; visitors find it under a URL of its own where one is configured.
pub proof fn relay_is_the_configured_one(
    configured: Option<String>,
    public: Option<String>,
    base: Result<String, &'static str>,
    shown: Result<String, &'static str>,
)
    requires
        call_ensures(native::relay_base_url, (configured,), base),
        call_ensures(native::relay_public_url, (public,), shown),
    ensures
        base matches Ok(url) ==> weburl::url_parts(
            match configured {
                Some(own) => own@,
                None => "http://127.0.0.1:8787"@,
            },
        )->Ok_0.3 == url@,
        shown matches Ok(url) ==> weburl::url_parts(
            match public {
                Some(own) => own@,
                None => "http://127.0.0.1:8787"@,
            },
        )->Ok_0.3 == url@,
        shown matches Err(error) ==> error@ == "invalid BEAM_RELAY_PUBLIC_URL"@,
{
}

/// A request goes to the same path of the local server, with the same query.
pub proof fn local_url_keeps_path_and_query(
    origin: &str,
    path: &str,
    query: Option<&str>,
    url: String,
)
    requires
        call_ensures(native::proxy_url, (origin, path, query), url),
    ensures
        query is None ==> url@ == origin@ + path@,
        query matches Some(asked) ==> url@ == origin@ + path@ + "?"@ + asked@,
{
    if query is None {
        assert(origin@ + path@ + Seq::<char>::empty() =~= origin@ + path@);
    } else {
        assert(url@ =~= origin@ + path@ + "?"@ + query->Some_0@);
    }
}

/// The statuses of the native relay name the link, the request and what went wrong.
pub proof fn relay_statuses_name_their_subject(
    public_url: &str,
    ready: String,
    request_id: u64,
    error: &str,
    failed: String,
    provider_name: &str,
    asked: String,
)
    requires
        call_ensures(native::ready_status, (public_url,), ready),
        call_ensures(native::request_failed_status, (request_id, error), failed),
        call_ensures(crate::provider::auto::explicit_ready_status, (provider_name,), asked),
    ensures
        text::ends_with(ready@, public_url@),
        text::ends_with(failed@, error@),
        text::contains(failed@, decimal::decimal(request_id as nat)),
        asked@ == "Public link ready via "@ + provider_name@,
{
    broadcast use {laws::front_is_contained, laws::back_is_contained, laws::text_contains_itself};

    laws::middle_is_contained("Beam native relay ready at "@, public_url@, Seq::empty());
    laws::middle_is_contained(
        "Beam native relay request "@ + decimal::decimal(request_id as nat) + " failed: "@,
        error@,
        Seq::empty(),
    );
}

/// A line that reports a failure of its program is noted, whatever white space stands around it;
/// each program has its own way to report one.
pub proof fn failures_of_programs_are_noted(
    watch: &mut StartupWatch,
    program: TunnelProgram,
    line: Seq<char>,
    text: String,
    step: WatchStep,
)
    requires
        text@ == " "@ + line + "\n"@,
        line.len() > 0,
        !text::is_space(line[0]),
        !text::is_space(line.last()),
        call_ensures(StartupWatch::read, (watch, program, &(ReadEvent::Line { text })), step),
    ensures
        program != TunnelProgram::Cloudflared && (text::starts_with(line, "ssh: "@) || says_any(
            line,
            ssh_failures(),
        )) ==> text::optional(final(watch).startup_error) == Some(line),
        program == TunnelProgram::Cloudflared && old(watch).startup_error is None
            && text::starts_with(line, "ERR "@) ==> text::optional(final(watch).startup_error)
            == Some(line),
        program == TunnelProgram::Cloudflared && !(text::contains(line, " ERR "@)
            || text::starts_with(line, "ERR "@) || text::starts_with(line, "failed "@)
            || text::starts_with(line, "failed to "@)) ==> text::optional(
            final(watch).startup_error,
        ) == text::optional(old(watch).startup_error),
        program != TunnelProgram::Cloudflared && !(text::starts_with(line, "ssh: "@) || says_any(
            line,
            ssh_failures(),
        )) ==> text::optional(final(watch).startup_error) == text::optional(
            old(watch).startup_error,
        ),
        step.status is Some,
{
    reveal_strlit(" ");
    reveal_strlit("\n");
    laws::trimming_takes_white_space_only(" "@, line, "\n"@);
    lemma_ssh_failures(line);
    let view = step@;
    assert(view == old(watch).reaction(program, ReadEvent::Line { text }));
}

/// The native relay is named in the order of the providers only where it was tried.
pub proof fn order_names_what_was_tried(attempts: &[ProviderAttempt], failure: String)
    requires
        call_ensures(crate::provider::auto::format_auto_startup_error, (attempts,), failure),
    ensures
        ({
            let start = "Beam could not start global sharing automatically.\n\n"@
                + "Auto provider order: cloudflared -> pinggy"@;
            let tried = exists|i: int|
                0 <= i < attempts@.len() && (#[trigger] attempts@[i]).provider
                    == ProviderKind::Native;
            &&& tried ==> text::starts_with(
                failure@,
                start + " -> native"@ + "\n\nAttempts:\n"@,
            )
            &&& !tried ==> text::starts_with(failure@, start + "\n\nAttempts:\n"@)
        }),
{
    let views = crate::provider::auto::attempt_views(attempts@);
    let tried = exists|i: int|
        0 <= i < attempts@.len() && (#[trigger] attempts@[i]).provider == ProviderKind::Native;
    if tried {
        let i = choose|i: int|
            0 <= i < attempts@.len() && (#[trigger] attempts@[i]).provider == ProviderKind::Native;
        assert(views[i].provider == ProviderKind::Native);
    } else {
        assert forall|i: int| 0 <= i < views.len() implies (#[trigger] views[i]).provider
            != ProviderKind::Native by {
            assert(views[i] == attempts@[i]@);
        }
    }
    let start = "Beam could not start global sharing automatically.\n\n"@
        + "Auto provider order: cloudflared -> pinggy"@;
    let rest = crate::provider::auto::attempt_lines(views)
        + "\nHints: install cloudflared, ensure ssh is available for Pinggy, set BEAM_RELAY_URL or run beam-relay, or use --local."@;
    let front = if tried {
        start + " -> native"@ + "\n\nAttempts:\n"@
    } else {
        start + "\n\nAttempts:\n"@
    };
    assert(failure@ =~= front + rest);
    laws::middle_is_contained(Seq::empty(), front, rest);
}

/// The option is among the arguments, with its flag in front.
pub open spec fn has_option(args: Seq<String>, value: Seq<char>) -> bool {
    exists|i: int|
        1 <= i < args.len() && (#[trigger] args[i])@ == value && args[i - 1]@ == "-o"@
}

proof fn lemma_has_option(args: Seq<String>, views: Seq<Seq<char>>, i: int)
    requires
        views == text::views(args),
        1 <= i < args.len(),
        views[i - 1] == "-o"@,
    ensures
        has_option(args, views[i]),
{
    assert(args[i]@ == views[i]);
    assert(args[i - 1]@ == views[i - 1]);
}

/// A tunnel over SSH gives up where it cannot forward, asks nothing of the sender's machine but
/// the connection, and keeps the connection alive.
pub proof fn ssh_tunnels_are_set_up(host: &str, port: u16, pinggy: Vec<String>, serveo: Vec<String>)
    requires
        call_ensures(command::pinggy_args_to, (host, port), pinggy),
        call_ensures(command::serveo_args_to, (host, port), serveo),
    ensures
        pinggy@[0]@ == "-T"@,
        has_option(pinggy@, "BatchMode=yes"@),
        has_option(pinggy@, "ExitOnForwardFailure=yes"@),
        has_option(pinggy@, "StrictHostKeyChecking=no"@),
        has_option(pinggy@, "UserKnownHostsFile=/dev/null"@),
        has_option(pinggy@, "ConnectTimeout=15"@),
        has_option(pinggy@, "ServerAliveInterval=30"@),
        serveo@[0]@ == "-T"@,
        has_option(serveo@, "ExitOnForwardFailure=yes"@),
        has_option(serveo@, "StrictHostKeyChecking=no"@),
        has_option(serveo@, "UserKnownHostsFile=/dev/null"@),
        has_option(serveo@, "ConnectTimeout=15"@),
        has_option(serveo@, "ServerAliveInterval=30"@),
        has_option(serveo@, "PreferredAuthentications=keyboard-interactive"@),
        has_option(serveo@, "KbdInteractiveAuthentication=yes"@),
        has_option(serveo@, "PubkeyAuthentication=no"@),
        has_option(serveo@, "IdentityAgent=none"@),
{
    let p = text::views(pinggy@);
    let s = text::views(serveo@);
    assert(p == command::pinggy_args_for(host@, port));
    assert(s == command::serveo_args_for(host@, port));
    assert(p.len() == 18 && p.len() == pinggy@.len());
    assert(s.len() == 24 && s.len() == serveo@.len());
    assert(p[0] == pinggy@[0]@);
    assert(s[0] == serveo@[0]@);
    lemma_has_option(pinggy@, p, 2);
    lemma_has_option(pinggy@, p, 4);
    lemma_has_option(pinggy@, p, 6);
    lemma_has_option(pinggy@, p, 8);
    lemma_has_option(pinggy@, p, 10);
    lemma_has_option(pinggy@, p, 12);
    lemma_has_option(serveo@, s, 2);
    lemma_has_option(serveo@, s, 4);
    lemma_has_option(serveo@, s, 6);
    lemma_has_option(serveo@, s, 8);
    lemma_has_option(serveo@, s, 10);
    lemma_has_option(serveo@, s, 12);
    lemma_has_option(serveo@, s, 14);
    lemma_has_option(serveo@, s, 16);
    lemma_has_option(serveo@, s, 18);
}

/// Without a local URL that has a host and a port no tunnel over SSH is started, and the sender
/// is told what is missing.
pub proof fn missing_origin_is_explained(
    program: TunnelProgram,
    local_url: &str,
    res: Result<Vec<String>, String>,
)
    requires
        program != TunnelProgram::Cloudflared,
        call_ensures(command::tunnel_args, (program, local_url), res),
    ensures
        res matches Err(error) ==> {
            &&& weburl::url_parts(local_url@) is Err ==> error@ == "invalid local origin URL for "@
                + program.service()
            &&& weburl::url_parts(local_url@) matches Ok(parts) ==> error@ == program.service()
                + (if parts.1 is None {
                " requires a host in the local origin URL"@
            } else {
                " requires a port in the local origin URL"@
            })
        },
        weburl::url_parts(local_url@) is Err ==> res is Err,
{
}

/// Each provider is described by the way that it takes.
pub proof fn transports_are_described(provider: ProviderKind, label: &'static str, limit: Duration)
    requires
        call_ensures(ProviderKind::transport_label, (provider,), label),
        call_ensures(crate::provider::pinggy_free_ttl_limit, (), limit),
    ensures
        label@ == match provider {
            ProviderKind::Auto => "HTTPS tunnel"@,
            ProviderKind::Cloudflared => "HTTPS tunnel via cloudflared"@,
            ProviderKind::Pinggy => "HTTPS tunnel via Pinggy SSH"@,
            ProviderKind::Native => "HTTPS relay via native client"@,
        },
        limit.secs == 3_600 && limit.nanos == 0,
{
}

/// A link of cloudflared is the first that its pattern finds in the line; one of Serveo is the
/// first with a host of Serveo in the line without its terminal sequences.
pub proof fn links_are_the_first_found(
    line: &str,
    pattern: &str,
    first: Option<String>,
    served: Option<String>,
    found: Seq<Seq<char>>,
    host: Seq<char>,
)
    requires
        call_ensures(public_url::extract_public_url, (line, pattern), first),
        call_ensures(public_url::extract_serveo_public_url, (line, pattern), served),
        public_url::regex_matches(pattern@, line@) == Some(found),
        found.len() > 0,
        weburl::host_of(found[0]) == Some(host),
    ensures
        text::optional(first) == Some(found[0]),
        !line@.contains('\u{1b}') && (text::ends_with(host, ".serveo.net"@) || text::ends_with(
            host,
            ".serveousercontent.com"@,
        )) ==> text::optional(served) == Some(found[0]),
        served matches Some(url) ==> weburl::host_of(url@) matches Some(own) && (text::ends_with(
            own,
            ".serveo.net"@,
        ) || text::ends_with(own, ".serveousercontent.com"@)),
{
    lemma_stripped(line@);
}

/// A request is put to the local server as it came, unless its method is none of HTTP or it has
/// more headers than a request can hold.
pub proof fn requests_are_refused_with_a_reason(
    local_origin: &str,
    method: &str,
    path: &str,
    query: Option<&str>,
    pairs: Vec<HeaderPair>,
    res: Result<native::ProxyRequest, String>,
)
    requires
        call_ensures(native::proxy_request, (local_origin, method, path, query, &pairs), res),
    ensures
        !native::is_method(method@) ==> (res matches Err(error) && error@
            == "unsupported proxied method "@ + method@),
        native::is_method(method@) && pairs@.len() <= 6_554 ==> res is Ok,
        res matches Ok(request) ==> request.method@ == method@ && text::starts_with(
            request.url@,
            local_origin@ + path@,
        ),
{
    broadcast use {laws::front_part_starts_text, laws::text_starts_with_itself};

    if let Ok(request) = res {
        if query is None {
            assert(local_origin@ + path@ + Seq::<char>::empty() =~= local_origin@ + path@);
        }
    }
}

} // verus!
