use axum::http::{HeaderMap, HeaderValue};
use beam::provider::auto::{
    auto_provider_order, explicit_ready_status, format_auto_ready_status,
    format_auto_startup_error, provider_auto_availability, AutoEvent, AutoStart, AutoStep,
    ProviderAttempt,
};
use beam::provider::command::{ssh_tunnel_args, tunnel_args};
use beam::provider::native::{
    create_session_url, health_url, proxy_request, proxy_url, react, ready_status,
    relay_base_url, relay_output, relay_public_url, request_failed_status, session_request, session_request_for,
    ProxyEvent, ProxyOutput, ReaderEvent, ReaderStep,
};
use beam::provider::output::{
    cloudflared_error_priority, record_cloudflared_startup_error, record_pinggy_startup_error,
    record_ssh_provider_startup_error, seems_cloudflared_error, seems_pinggy_error,
    seems_ssh_provider_error,
};
use beam::provider::public_url::{
    extract_pinggy_public_url, extract_public_url, extract_serveo_public_url, first_accepted_link,
    first_found, strip_ansi, HostRule, CLOUDFLARED_URL, PINGGY_URL, SERVEO_URL,
};
use beam::provider::startup::{
    poll_startup, ReadEvent, StartupFacts, StartupPoll, StartupWatch, TunnelProgram,
};
use beam::provider::{pinggy_free_ttl_limit, ProviderKind};
use beam::relay_protocol::{
    decode_body_chunk, ClientToRelayMessage, HeaderPair, RelayToClientMessage,
};

fn line(text: &str) -> ReadEvent {
    ReadEvent::Line { text: text.to_string() }
}

#[test]
fn parses_public_cloudflared_url() {
    let regex = r"https://[A-Za-z0-9._/-]*trycloudflare\.com";
    let line = "INF | Your quick Tunnel has been created! Visit it at https://beam-alpha.trycloudflare.com";
    assert_eq!(
        extract_public_url(line, regex).as_deref(),
        Some("https://beam-alpha.trycloudflare.com")
    );
}

#[test]
fn parses_public_pinggy_url() {
    let regex = r"https://[A-Za-z0-9._-]+(?:\.[A-Za-z0-9._-]+)*\.pinggy\.(?:link|io)";
    let line = "You are not authenticated. Upgrade at https://dashboard.pinggy.io\nhttps://qvlow-79-117-198-230.a.free.pinggy.link";
    assert_eq!(
        extract_pinggy_public_url(line, regex).as_deref(),
        Some("https://qvlow-79-117-198-230.a.free.pinggy.link")
    );
}

#[test]
fn identifies_cloudflared_error_lines() {
    assert!(seems_cloudflared_error(
        "2026-03-23T10:50:38Z ERR Error unmarshaling QuickTunnel response"
    ));
    assert!(seems_cloudflared_error(
        "failed to unmarshal quick Tunnel: invalid character 'e' looking for beginning of value"
    ));
    assert!(!seems_cloudflared_error(
        "2026-03-23T10:50:38Z INF Requesting new quick Tunnel on trycloudflare.com..."
    ));
}

#[test]
fn prefers_rate_limit_error_details() {
    let mut error = None;

    record_cloudflared_startup_error(
        &mut error,
        "failed to unmarshal quick Tunnel: invalid character 'e' looking for beginning of value",
    );
    record_cloudflared_startup_error(
        &mut error,
        "2026-03-23T10:50:38Z ERR Error unmarshaling QuickTunnel response: error code: 1015 error=\"invalid character 'e' looking for beginning of value\" status_code=\"429 Too Many Requests\"",
    );

    let stored = error.unwrap();
    assert!(stored.contains("429 Too Many Requests"));
    assert_eq!(cloudflared_error_priority(&stored), 3);
}

#[test]
fn resolves_auto_order_from_available_providers() {
    let order = auto_provider_order(true, true, false);
    assert_eq!(order, vec![ProviderKind::Cloudflared, ProviderKind::Pinggy]);
}

#[test]
fn auto_order_leaves_out_what_is_missing() {
    assert!(auto_provider_order(false, false, false).is_empty());
    assert_eq!(auto_provider_order(false, true, true), vec![
        ProviderKind::Pinggy,
        ProviderKind::Native
    ]);
    assert_eq!(auto_provider_order(true, true, true).len(), 3);
}

#[test]
fn auto_falls_back_to_pinggy_when_cloudflared_fails() {
    let mut watch = StartupWatch::new();
    watch.read(
        TunnelProgram::Cloudflared,
        &line("2026-03-23T10:50:38Z ERR Error unmarshaling QuickTunnel response: status_code=\"429 Too Many Requests\"\n"),
    );
    let error = match poll_startup(
        TunnelProgram::Cloudflared,
        &StartupFacts {
            url: None,
            exit_status: Some("exit status: 1".to_string()),
            startup_error: watch.startup_error,
            elapsed_millis: 10,
        },
    ) {
        StartupPoll::Failed { message, stop } => {
            assert!(!stop);
            message
        }
        _ => panic!("expected cloudflared startup to fail"),
    };
    let mut start = AutoStart::new();
    assert!(matches!(start.next(), AutoStep::Try { provider: ProviderKind::Cloudflared }));
    let step = start.report(AutoEvent::Failed { error });
    assert!(matches!(step, AutoStep::Try { provider: ProviderKind::Pinggy }));

    let mut watch = StartupWatch::new();
    let step = watch.read(
        TunnelProgram::Pinggy,
        &line("Allocated port 7 for remote forward to localhost:3000\n"),
    );
    assert!(step.url.is_none());
    let step = watch.read(TunnelProgram::Pinggy, &line("https://beam-test.a.free.pinggy.link\n"));
    assert_eq!(step.url.as_deref(), Some("https://beam-test.a.free.pinggy.link"));

    match start.report(AutoEvent::Started) {
        AutoStep::Ready { provider, status } => {
            assert_eq!(provider, ProviderKind::Pinggy);
            assert!(status.contains("cloudflared failed"));
            assert_eq!(status, "Public link ready via pinggy after cloudflared failed");
        }
        _ => panic!("expected a tunnel"),
    }
}

#[test]
fn explicit_pinggy_does_not_fallback() {
    let mut watch = StartupWatch::new();
    watch.read(
        TunnelProgram::Pinggy,
        &line("ssh: Could not resolve hostname free.pinggy.io: Name or service not known\n"),
    );
    let facts = StartupFacts {
        url: None,
        exit_status: Some("exit status: 255".to_string()),
        startup_error: watch.startup_error,
        elapsed_millis: 100,
    };
    match poll_startup(TunnelProgram::Pinggy, &facts) {
        StartupPoll::Failed { message, .. } => {
            assert!(message.contains("Could not resolve hostname"));
            assert!(!message.contains("cloudflared"));
        }
        _ => panic!("expected Pinggy startup to fail"),
    }
    assert_eq!(explicit_ready_status("pinggy"), "Public link ready via pinggy");
}

#[test]
fn auto_reports_ordered_provider_failures() {
    let mut start = AutoStart::new();
    start.report(AutoEvent::Failed { error: "ERR quick tunnel failed".to_string() });
    start.report(AutoEvent::Failed {
        error: "ssh: Connection timed out during banner exchange".to_string(),
    });
    let error = match start.report(AutoEvent::Unavailable) {
        AutoStep::GiveUp { message } => message,
        _ => panic!("expected auto startup to fail"),
    };
    assert!(error.contains("cloudflared failed"));
    assert!(error.contains("pinggy failed"));
    assert_eq!(
        error,
        "Beam could not start global sharing automatically.\n\nAuto provider order: cloudflared -> pinggy -> native\n\nAttempts:\n- cloudflared failed: ERR quick tunnel failed\n- pinggy failed: ssh: Connection timed out during banner exchange\n- native unavailable: no BEAM_RELAY_URL is configured and the default local relay is not reachable\n\nHints: install cloudflared, ensure ssh is available for Pinggy, set BEAM_RELAY_URL or run beam-relay, or use --local."
    );
}

#[test]
fn formats_auto_startup_error_with_ordered_attempts() {
    let error = format_auto_startup_error(&[
        ProviderAttempt {
            provider: ProviderKind::Cloudflared,
            state: "failed",
            detail: "rate limited".to_string(),
        },
        ProviderAttempt {
            provider: ProviderKind::Pinggy,
            state: "unavailable",
            detail: "ssh missing".to_string(),
        },
    ]);

    assert!(error.contains("cloudflared failed: rate limited"));
    assert!(error.contains("pinggy unavailable: ssh missing"));
    assert!(!error.contains(" -> native"));
}

#[test]
fn native_provider_relays_http_get() {
    let message = RelayToClientMessage::RequestStart {
        request_id: 1,
        method: "GET".to_string(),
        path: "/".to_string(),
        query: None,
        headers: vec![],
    };
    let (id, method, path, query, headers) = match react(ReaderEvent::Message { message }) {
        ReaderStep::Proxy { request_id, method, path, query, headers } => {
            (request_id, method, path, query, headers)
        }
        _ => panic!("expected a request"),
    };
    let request =
        proxy_request("http://127.0.0.1:3000", &method, &path, query.as_deref(), &headers).unwrap();
    assert_eq!(request.url, "http://127.0.0.1:3000/");
    assert_eq!(request.method, "GET");
    let chunk = ProxyEvent::Chunk { bytes: b"beam-native".to_vec() };
    match relay_output(id, &chunk) {
        ProxyOutput::Body { frame } => {
            let (request_id, body) = decode_body_chunk(&frame).unwrap();
            assert_eq!(request_id, 1);
            assert_eq!(&body[..], b"beam-native");
        }
        ProxyOutput::Control { .. } => panic!("expected a body"),
    }
}

#[test]
fn names_and_transports_of_providers() {
    assert_eq!(ProviderKind::default(), ProviderKind::Auto);
    let expected = [
        (ProviderKind::Auto, "auto", "HTTPS tunnel"),
        (ProviderKind::Cloudflared, "cloudflared", "HTTPS tunnel via cloudflared"),
        (ProviderKind::Pinggy, "pinggy", "HTTPS tunnel via Pinggy SSH"),
        (ProviderKind::Native, "native", "HTTPS relay via native client"),
    ];
    for (provider, name, transport) in expected {
        assert_eq!(provider.name(), name);
        assert_eq!(provider.transport_label(), transport);
    }
    assert_eq!(pinggy_free_ttl_limit().as_secs(), 3600);
}

#[test]
fn unavailable_providers_say_why() {
    assert_eq!(provider_auto_availability(ProviderKind::Pinggy, true), Ok(()));
    assert_eq!(
        provider_auto_availability(ProviderKind::Cloudflared, false).unwrap_err(),
        "cloudflared is not installed or not on PATH"
    );
    assert_eq!(
        provider_auto_availability(ProviderKind::Pinggy, false).unwrap_err(),
        "ssh is not installed or not on PATH"
    );
}

#[test]
fn ready_status_without_attempts_is_short() {
    assert_eq!(format_auto_ready_status("native", &[]), "Public link ready via native");
}

#[test]
fn priorities_of_cloudflared_lines() {
    assert_eq!(cloudflared_error_priority("all is well"), 0);
    assert_eq!(cloudflared_error_priority("failed to start"), 1);
    assert_eq!(cloudflared_error_priority("ERR no"), 2);
    assert_eq!(cloudflared_error_priority("status_code=500"), 3);
    let mut kept = None;
    for text in ["fine", "failed one", "x ERR two", "failed three", "x ERR four"] {
        record_cloudflared_startup_error(&mut kept, text);
    }
    assert_eq!(kept.as_deref(), Some("x ERR two"));
}

#[test]
fn ssh_errors_are_kept_the_last_first() {
    let mut kept = None;
    record_pinggy_startup_error(&mut kept, "Permission denied (publickey).");
    record_pinggy_startup_error(&mut kept, "welcome");
    assert_eq!(kept.as_deref(), Some("Permission denied (publickey)."));
    record_ssh_provider_startup_error(&mut kept, "ssh: Connection refused");
    assert_eq!(kept.as_deref(), Some("ssh: Connection refused"));
    for text in [
        "ssh: x",
        "a Permission denied",
        "Host key verification failed.",
        "Could not resolve hostname x",
        "Connection timed out",
        "Connection refused",
        "remote port forwarding failed for listen port 0",
        "administratively prohibited",
        "kex_exchange_identification: read",
    ] {
        assert!(seems_pinggy_error(text) && seems_ssh_provider_error(text));
    }
    assert!(!seems_pinggy_error("xssh: "));
}

#[test]
fn urls_of_other_hosts_are_passed_over() {
    assert_eq!(extract_public_url("http://x.trycloudflare.com", CLOUDFLARED_URL), None);
    assert_eq!(
        extract_public_url("https://a.trycloudflare.com/x/trycloudflare.com z", CLOUDFLARED_URL)
            .as_deref(),
        Some("https://a.trycloudflare.com/x/trycloudflare.com")
    );
    assert_eq!(extract_pinggy_public_url("https://dashboard.pinggy.io", PINGGY_URL), None);
    assert_eq!(extract_pinggy_public_url("https://dashboard.x.pinggy.io", PINGGY_URL), None);
    assert_eq!(
        extract_pinggy_public_url("https://abc.pinggy.io", PINGGY_URL).as_deref(),
        Some("https://abc.pinggy.io")
    );
    assert_eq!(extract_public_url("anything", "("), None);
}

#[test]
fn given_matches_are_sifted_by_host() {
    let found: Vec<String> = ["https://dashboard.pinggy.io", "nonsense", "https://a.pinggy.link/x"]
        .iter()
        .map(|url| url.to_string())
        .collect();
    assert_eq!(first_found(&found).as_deref(), Some("https://dashboard.pinggy.io"));
    assert_eq!(first_found(&Vec::new()), None);
    assert_eq!(
        first_accepted_link(&found, HostRule::Pinggy).as_deref(),
        Some("https://a.pinggy.link/x")
    );
    assert_eq!(first_accepted_link(&found, HostRule::Serveo), None);
    assert!(HostRule::Pinggy.allows("a.pinggy.io"));
    assert!(!HostRule::Pinggy.allows("dashboard.a.pinggy.io"));
    assert!(HostRule::Serveo.allows("a.serveo.net"));
    assert!(!HostRule::Serveo.allows("serveo.net"));
}

#[test]
fn the_first_of_the_most_telling_lines_is_kept() {
    let mut kept = None;
    for line in ["INF start", "failed once", "ERR first", "x ERR second", "failed twice"] {
        record_cloudflared_startup_error(&mut kept, line);
    }
    assert_eq!(kept.as_deref(), Some("ERR first"));
}

#[test]
fn serveo_lines_lose_their_colours() {
    assert_eq!(strip_ansi("\u{1b}[32mgreen\u{1b}[0m text"), "green text");
    assert_eq!(strip_ansi("plain"), "plain");
    assert_eq!(strip_ansi("\u{1b}x"), "\u{1b}x");
    assert_eq!(strip_ansi("cut\u{1b}[12"), "cut");
    let line = "\u{1b}[32mForwarding HTTP traffic from https://abc.serveo.net\u{1b}[0m";
    assert_eq!(
        extract_serveo_public_url(line, SERVEO_URL).as_deref(),
        Some("https://abc.serveo.net")
    );
    assert_eq!(
        extract_serveo_public_url("https://a.b.serveousercontent.com", SERVEO_URL).as_deref(),
        Some("https://a.b.serveousercontent.com")
    );
}

#[test]
fn a_watch_hands_on_one_url() {
    let mut watch = StartupWatch::new();
    let empty = watch.read(TunnelProgram::Cloudflared, &line("   \n"));
    assert!(empty.status.is_none() && empty.url.is_none() && !empty.done);
    let first = watch.read(TunnelProgram::Cloudflared, &line(" see https://a.trycloudflare.com \n"));
    assert_eq!(first.status.as_deref(), Some("see https://a.trycloudflare.com"));
    assert_eq!(first.url.as_deref(), Some("https://a.trycloudflare.com"));
    let second = watch.read(TunnelProgram::Cloudflared, &line("https://b.trycloudflare.com"));
    assert!(second.url.is_none());
    let long = watch.read(TunnelProgram::Cloudflared, &line(&"x".repeat(200)));
    assert_eq!(long.status.map(|status| status.len()), Some(120));
    let end = watch.read(TunnelProgram::Cloudflared, &ReadEvent::End);
    assert!(end.done && end.status.is_none());
    let failed =
        watch.read(TunnelProgram::Pinggy, &ReadEvent::Failed { error: "broken".to_string() });
    assert!(failed.done);
    assert_eq!(failed.status.as_deref(), Some("Pinggy ssh read error: broken"));
    let mut serveo = StartupWatch::new();
    let coloured = serveo.read(TunnelProgram::Serveo, &line("\u{1b}[1mhi\u{1b}[0m"));
    assert_eq!(coloured.status.as_deref(), Some("hi"));
}

#[test]
fn a_start_is_waited_for() {
    let facts = |url: Option<&str>, exit: Option<&str>, error: Option<&str>, millis: u64| {
        StartupFacts {
            url: url.map(str::to_string),
            exit_status: exit.map(str::to_string),
            startup_error: error.map(str::to_string),
            elapsed_millis: millis,
        }
    };
    let program = TunnelProgram::Pinggy;
    match poll_startup(program, &facts(Some("https://u"), Some("gone"), None, 99_999)) {
        StartupPoll::Ready { public_url, status } => {
            assert_eq!(public_url, "https://u");
            assert_eq!(status, "Pinggy ready at https://u");
        }
        _ => panic!("expected a tunnel"),
    }
    match poll_startup(program, &facts(None, Some("exit status: 1"), None, 0)) {
        StartupPoll::Failed { message, stop } => {
            assert_eq!(
                message,
                "Pinggy ssh exited before returning a public URL (exit status: 1)"
            );
            assert!(!stop);
        }
        _ => panic!("expected a failure"),
    }
    match poll_startup(TunnelProgram::Cloudflared, &facts(None, None, None, 20_000)) {
        StartupPoll::Failed { message, stop } => {
            assert_eq!(message, "timed out waiting for cloudflared to expose a public URL");
            assert!(stop);
        }
        _ => panic!("expected a timeout"),
    }
    match poll_startup(program, &facts(None, None, Some("why"), 20_000)) {
        StartupPoll::Failed { message, .. } => assert_eq!(message, "why"),
        _ => panic!("expected a timeout"),
    }
    assert!(matches!(
        poll_startup(program, &facts(None, None, Some("why"), 19_999)),
        StartupPoll::Wait { millis: 100 }
    ));
}

#[test]
fn programs_have_their_texts() {
    let cloudflared = TunnelProgram::Cloudflared;
    assert_eq!(cloudflared.starting_status(), "Starting cloudflared tunnel");
    assert_eq!(TunnelProgram::Serveo.starting_status(), "Starting Serveo tunnel over SSH");
    assert_eq!(TunnelProgram::Pinggy.query_error(), "failed to query Pinggy ssh status");
    assert!(cloudflared.spawn_error().starts_with("failed to spawn cloudflared."));
}

#[test]
fn programs_get_their_arguments() {
    assert_eq!(
        tunnel_args(TunnelProgram::Cloudflared, "http://127.0.0.1:3000").unwrap(),
        vec!["tunnel", "--no-autoupdate", "--url", "http://127.0.0.1:3000"]
    );
    assert_eq!(
        tunnel_args(TunnelProgram::Pinggy, "http://127.0.0.1:3000").unwrap().join(" "),
        "-T -o BatchMode=yes -o ExitOnForwardFailure=yes -o StrictHostKeyChecking=no -o UserKnownHostsFile=/dev/null -o ConnectTimeout=15 -o ServerAliveInterval=30 -p 443 -R 0:127.0.0.1:3000 free.pinggy.io"
    );
    assert_eq!(
        tunnel_args(TunnelProgram::Serveo, "http://localhost").unwrap().join(" "),
        "-T -o ExitOnForwardFailure=yes -o StrictHostKeyChecking=no -o UserKnownHostsFile=/dev/null -o ConnectTimeout=15 -o ServerAliveInterval=30 -o PreferredAuthentications=keyboard-interactive -o KbdInteractiveAuthentication=yes -o PubkeyAuthentication=no -o IdentityAgent=none -p 22 -R 80:localhost:80 serveo.net"
    );
    assert_eq!(ssh_tunnel_args(true).last().map(String::as_str), Some("BatchMode=yes"));
}

#[test]
fn origins_need_a_host_and_a_port() {
    let error = |url: &str| tunnel_args(TunnelProgram::Pinggy, url).unwrap_err();
    assert_eq!(error("no url"), "invalid local origin URL for Pinggy");
    assert_eq!(error("mailto:x"), "Pinggy requires a host in the local origin URL");
    assert_eq!(error("foo://host"), "Pinggy requires a port in the local origin URL");
}

#[test]
fn relay_urls_are_checked() {
    assert_eq!(relay_base_url(None), Ok("http://127.0.0.1:8787/".to_string()));
    assert_eq!(
        relay_public_url(Some("HTTPS://Relay.example/x".to_string())),
        Ok("https://relay.example/x".to_string())
    );
    assert_eq!(
        relay_public_url(Some("nonsense".to_string())),
        Err("invalid BEAM_RELAY_PUBLIC_URL")
    );
    assert_eq!(relay_base_url(Some("nonsense".to_string())), Err("invalid BEAM_RELAY_URL"));
    assert_eq!(
        create_session_url("https://relay.example/x/"),
        Ok("https://relay.example/x/v1/sessions".to_string())
    );
    assert_eq!(create_session_url("mailto:x"), Err("invalid relay URL"));
    assert_eq!(
        health_url("http://127.0.0.1:8787").as_deref(),
        Some("http://127.0.0.1:8787/healthz")
    );
    assert_eq!(health_url("http://relay.example"), None);
}

#[test]
fn relay_sessions_are_asked_for_an_hour() {
    let request = session_request_for(1_000).unwrap();
    assert_eq!(request.download_name, "beam");
    assert_eq!(request.expires_at_unix, 4_600);
    assert_eq!(session_request_for(u64::MAX - 3_600).unwrap().expires_at_unix, u64::MAX);
    assert!(session_request_for(u64::MAX - 3_599).is_none());
    assert!(session_request().unwrap().expires_at_unix > 1_700_000_000);
}

#[test]
fn the_reader_knows_when_to_stop() {
    let status = |event: ReaderEvent| match react(event) {
        ReaderStep::Stop { status } => Some(status),
        _ => None,
    };
    assert_eq!(
        status(ReaderEvent::Message {
            message: RelayToClientMessage::SessionClose { reason: "bye".to_string() }
        })
        .as_deref(),
        Some("Beam native relay closed: bye")
    );
    assert_eq!(
        status(ReaderEvent::Unreadable { error: "e".to_string() }).as_deref(),
        Some("Beam native relay protocol error: e")
    );
    assert_eq!(status(ReaderEvent::Closed).as_deref(), Some("Beam native relay closed"));
    assert_eq!(
        status(ReaderEvent::Failed { error: "e".to_string() }).as_deref(),
        Some("Beam native relay disconnected: e")
    );
    assert_eq!(status(ReaderEvent::Other), None);
    assert_eq!(ready_status("https://r"), "Beam native relay ready at https://r");
    assert_eq!(request_failed_status(7, "e"), "Beam native relay request 7 failed: e");
}

#[test]
fn requests_are_proxied_with_their_query_and_headers() {
    assert_eq!(proxy_url("http://h", "/p", Some("a=b")), "http://h/p?a=b");
    let pairs = vec![
        HeaderPair { name: "Range".to_string(), value: "bytes=0-1".to_string() },
        HeaderPair { name: "bad name".to_string(), value: "x".to_string() },
        HeaderPair { name: "x".to_string(), value: "line\nbreak".to_string() },
    ];
    let request = proxy_request("http://h", "GET", "/p", Some("a=b"), &pairs).unwrap();
    assert_eq!(request.headers.len(), 1);
    assert_eq!(request.headers.get("range").unwrap(), "bytes=0-1");
    assert_eq!(
        proxy_request("http://h", "GE T", "/p", None, &pairs).unwrap_err(),
        "unsupported proxied method GE T"
    );
    assert!(proxy_request("http://h", "", "/p", None, &pairs).is_err());
    assert!(proxy_request("http://h", "PURGE-all", "/p", None, &pairs).is_ok());
}

#[test]
fn the_local_answer_goes_to_the_relay() {
    let mut headers = HeaderMap::new();
    headers.insert("content-type", HeaderValue::from_static("text/plain"));
    headers.insert("connection", HeaderValue::from_static("close"));
    match relay_output(9, &ProxyEvent::Head { status: 206, headers }) {
        ProxyOutput::Control {
            message: ClientToRelayMessage::ResponseStart { request_id, status, headers },
        } => {
            assert_eq!((request_id, status), (9, 206));
            assert_eq!(headers.len(), 1);
            assert_eq!(headers[0].name, "content-type");
            assert_eq!(headers[0].value, "text/plain");
        }
        _ => panic!("expected a head"),
    }
    match relay_output(9, &ProxyEvent::Unreachable { error: "e".to_string() }) {
        ProxyOutput::Control {
            message: ClientToRelayMessage::ResponseError { request_id, status, message },
        } => {
            assert_eq!((request_id, status), (9, 502));
            assert_eq!(message, "Beam could not reach its local server: e");
        }
        _ => panic!("expected an error"),
    }
    match relay_output(9, &ProxyEvent::Broken { error: "e".to_string() }) {
        ProxyOutput::Control {
            message: ClientToRelayMessage::ResponseError { message, .. },
        } => assert_eq!(message, "Beam relay response stream failed: e"),
        _ => panic!("expected an error"),
    }
    assert!(matches!(
        relay_output(9, &ProxyEvent::End),
        ProxyOutput::Control { message: ClientToRelayMessage::ResponseEnd { request_id: 9 } }
    ));
}
