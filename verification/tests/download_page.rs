use beam::access::{access_setup, generate_token};
use beam::content::{ArchiveFormat, ContentSource, DiskKind};
use beam::download_page::{escape_attr, escape_html, render, render_with, show_bytes};
use beam::duration::{now, Duration, Timestamp};
use beam::provider::ProviderKind;
use beam::session::{ResolvedSendMode, SessionRejection, SessionSnapshot, SharedSession};

fn snapshot() -> SessionSnapshot {
    SessionSnapshot {
        display_name: "Vector <unsafe>.png".to_string(),
        download_name: "Vector <unsafe>.png".to_string(),
        content_kind: "file",
        transport_label: "HTTPS tunnel via cloudflared".to_string(),
        input_size: 27_484,
        content_length: Some(27_484),
        expires_at: now().after(Duration::from_secs(600)),
        remaining: Duration::from_secs(600),
        once: false,
        requires_pin: true,
        revealed_pin: None,
        primary_link_label: "Public HTTPS",
        primary_link: "https://beam.example/s/abc".to_string(),
        secondary_link_label: None,
        secondary_link: None,
        provider_status: "ready".to_string(),
        completed_downloads: 0,
        bytes_served: 0,
        active_download: false,
        consumed: false,
        warnings: Vec::new(),
        mode: ResolvedSendMode::Global { provider: ProviderKind::Cloudflared },
        token: "abc".to_string(),
    }
}

#[test]
fn renders_escaped_values_and_pin_notice() {
    let html = render(&snapshot());
    assert!(html.contains("Vector &lt;unsafe&gt;.png"));
    assert!(html.contains("token URL + PIN"));
    assert!(html.contains("A PIN is required before the file can be downloaded."));
    assert!(html.contains("name=\"pin\""));
}

#[test]
fn renders_secondary_local_link_when_present() {
    let mut snapshot = snapshot();
    snapshot.mode = ResolvedSendMode::Local { http_port: 8080, https_port: 8081 };
    snapshot.primary_link_label = "Primary (No Warnings)";
    snapshot.primary_link = "http://192.168.1.2:8080/s/abc".to_string();
    snapshot.secondary_link_label = Some("Secondary (Encrypted)");
    snapshot.secondary_link = Some("https://192.168.1.2:8081/s/abc".to_string());

    let html = render(&snapshot);
    assert!(html.contains("Primary (No Warnings)"));
    assert!(html.contains("Secondary (Encrypted)"));
    assert!(html.contains("Local mode uses HTTP for convenience."));
}

#[test]
fn renders_direct_quick_download_when_pin_is_not_required() {
    let mut snapshot = snapshot();
    snapshot.requires_pin = false;

    let html = render(&snapshot);
    assert!(html.contains("href=\"/download/abc\""));
    assert!(html.contains("href=\"https://github.com/lopezlean/beam\""));
}

#[test]
fn no_placeholder_stays_in_the_page() {
    let html = render(&snapshot());
    for part in html.split("__").skip(1) {
        assert!(!part.starts_with(|c: char| c.is_ascii_uppercase()), "placeholder left");
    }
}

#[test]
fn fields_take_the_place_of_placeholders() {
    let mut snapshot = snapshot();
    snapshot.expires_at = Timestamp { nanos: 12_500_000_000 };
    snapshot.remaining = Duration::from_secs(65);
    snapshot.once = true;
    snapshot.token = "a\"b".to_string();
    let template = "__PAGE_TITLE__|__BADGE__|__MODE_LABEL__|__TTL__|__STATE__|__TOKEN__|__EXPIRY_SECONDS__|__TTL__";
    assert_eq!(
        render_with(template, &snapshot),
        "Beam \u{b7} Vector &lt;unsafe&gt;.png|GLOBAL|Global default|1m 5s|Burn after reading|a&quot;b|12|1m 5s"
    );
}

#[test]
fn summary_and_notices_are_filled_in() {
    let mut snapshot = snapshot();
    snapshot.display_name = "d".to_string();
    snapshot.download_name = "d-beam.zip".to_string();
    snapshot.content_kind = "zip archive";
    snapshot.content_length = None;
    snapshot.input_size = 100;
    snapshot.requires_pin = false;
    let rows = render_with("__SUMMARY_ROWS__", &snapshot);
    assert!(rows.starts_with(
        "<div class=\"sheet__row\"><dt class=\"sheet__label\">Payload</dt><dd class=\"sheet__value\">d (zip archive)</dd></div>"
    ));
    assert!(rows.contains("<dd class=\"sheet__value\">100 B input</dd>"));
    assert!(rows.contains(
        "<dd class=\"sheet__value sheet__value--accent\">https://beam.example/s/abc</dd>"
    ));
    assert_eq!(render_with("[__NOTICES__]", &snapshot), "[]");
    snapshot.warnings.push("a & b".to_string());
    assert_eq!(
        render_with("__NOTICES__", &snapshot),
        "<section class=\"notice-stack\" aria-label=\"Session notes\"><div class=\"notice\">a &amp; b</div></section>"
    );
}

#[test]
fn escaping_leaves_no_markup() {
    assert_eq!(escape_html("<a href=\"x\">'&'</a>"), "&lt;a href=&quot;x&quot;&gt;&#39;&amp;&#39;&lt;/a&gt;");
    assert_eq!(escape_attr("plain"), "plain");
    assert_ne!(escape_html("<"), escape_html("&lt;"));
    let token = generate_token();
    assert_eq!(escape_attr(&token), token);
}

#[test]
fn sizes_are_shown_to_people() {
    assert_eq!(show_bytes(0), "0 B");
    assert_eq!(show_bytes(1023), "1023 B");
    assert_eq!(show_bytes(1024), "1.00 KiB");
    assert_eq!(show_bytes(27_484), "26.84 KiB");
}

#[test]
fn the_page_is_shown_with_the_right_token_in_time() {
    let content = ContentSource::inspect(
        "/tmp/f".to_string(),
        Some("f".to_string()),
        &DiskKind::File { size: 1, handle: 0 },
        ArchiveFormat::Zip,
    )
    .unwrap();
    let access = access_setup(Timestamp { nanos: 0 }, Duration::from_secs(10), false, None);
    let session = SharedSession::new(
        "tok".to_string(),
        content,
        access.policy,
        access.revealed_pin,
        ResolvedSendMode::Local { http_port: 1, https_port: 2 },
    );
    let page = session.build_page_at("tok", Timestamp { nanos: 0 }).unwrap();
    assert!(page.contains("href=\"/download/tok\""));
    assert_eq!(
        session.build_page_at("no", Timestamp { nanos: 0 }),
        Err(SessionRejection::InvalidToken)
    );
    assert_eq!(session.build_page("tok"), Err(SessionRejection::Expired));
}

#[test]
fn escaping_works_on_pieces() {
    for (a, b) in [("a & b", "<i>"), ("", "'\""), ("&am", "p;")] {
        let whole = escape_html(&format!("{a}{b}"));
        assert_eq!(whole, format!("{}{}", escape_html(a), escape_html(b)));
        for (at, _) in whole.match_indices('&') {
            let rest = &whole[at..];
            assert!(["&amp;", "&lt;", "&gt;", "&quot;", "&#39;"]
                .iter()
                .any(|entity| rest.starts_with(entity)));
        }
        let back = whole
            .replace("&lt;", "<")
            .replace("&gt;", ">")
            .replace("&quot;", "\"")
            .replace("&#39;", "'")
            .replace("&amp;", "&");
        assert_eq!(back, format!("{a}{b}"));
    }
}
