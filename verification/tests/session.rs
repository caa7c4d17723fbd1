use axum::http::{HeaderMap, HeaderValue};
use beam::access::{access_setup, hash_pin, AccessPolicy};
use beam::content::{ArchiveFormat, ContentSource, DiskEntry, DiskKind};
use beam::duration::{now, Duration, Timestamp};
use beam::provider::ProviderKind;
use beam::session::download::{
    content_disposition, download_headers, plan_download, DownloadRefusal, UnsatisfiableRange,
};
use beam::session::range::{parse_range_header, RequestedRange};
use beam::session::{ResolvedSendMode, SessionRejection, SharedSession};

fn file_content(name: &str, size: u64) -> ContentSource {
    ContentSource::inspect(
        format!("/tmp/{name}"),
        Some(name.to_string()),
        &DiskKind::File { size, handle: 0 },
        ArchiveFormat::Zip,
    )
    .unwrap()
}

fn folder_content() -> ContentSource {
    let children = vec![
        DiskEntry {
            raw_name: b"hello.txt".to_vec(),
            name: "hello.txt".to_string(),
            kind: DiskKind::File { size: 4, handle: 1 },
        },
        DiskEntry {
            raw_name: b"link".to_vec(),
            name: "link".to_string(),
            kind: DiskKind::Symlink,
        },
    ];
    ContentSource::inspect(
        "/tmp/folder".to_string(),
        Some("folder".to_string()),
        &DiskKind::Directory { children },
        ArchiveFormat::Zip,
    )
    .unwrap()
}

fn session(content: ContentSource, once: bool, pin: Option<&str>) -> SharedSession {
    let access = access_setup(
        Timestamp { nanos: 0 },
        Duration::from_secs(300),
        once,
        pin.map(str::to_string),
    );
    SharedSession::new(
        "token123".to_string(),
        content,
        access.policy,
        access.revealed_pin,
        ResolvedSendMode::Local { http_port: 8080, https_port: 8081 },
    )
}

const IN_TIME: Timestamp = Timestamp { nanos: 1_000_000_000 };

fn range(value: &str) -> HeaderMap {
    let mut headers = HeaderMap::new();
    headers.insert("range", HeaderValue::from_str(value).unwrap());
    headers
}

fn later(session: &mut SharedSession) {
    session.access.expires_at = now().after(Duration::from_secs(300));
}

#[test]
fn serves_local_file() {
    let mut session = session(file_content("hello.txt", 4), false, None);
    later(&mut session);
    let plan = session.admit_download("token123", None, &HeaderMap::new()).unwrap();
    assert_eq!(plan.status, 200);
    assert_eq!(plan.content_length, Some(4));
    assert_eq!(plan.accept_ranges, "bytes");
    assert!(plan.range.is_none());
    assert!(plan.content_range.is_none());
}

#[test]
fn rejects_incorrect_pin() {
    let mut session = session(file_content("secret.txt", 4), false, Some("123456"));
    later(&mut session);
    let refusal =
        session.admit_download("token123", Some("000000"), &HeaderMap::new()).unwrap_err();
    assert_eq!(refusal.status(), 401);
    assert_eq!(refusal.message(), "Invalid PIN");
}

#[test]
fn serves_partial_range_for_files() {
    let mut session = session(file_content("hello.txt", 10), false, None);
    later(&mut session);
    let plan = session.admit_download("token123", None, &range("bytes=5-9")).unwrap();
    assert_eq!(plan.status, 206);
    assert_eq!(plan.content_range.as_deref(), Some("bytes 5-9/10"));
    assert_eq!(plan.accept_ranges, "bytes");
    assert_eq!(plan.content_length, Some(5));
    assert_eq!(plan.range, Some(RequestedRange { start: 5, end: 9 }));
    let part = plan.range.unwrap();
    assert_eq!(&b"beam-range"[part.start as usize..=part.end as usize], b"range");
}

#[test]
fn rejects_unsatisfiable_ranges() {
    let mut session = session(file_content("hello.txt", 4), false, None);
    later(&mut session);
    let refusal = session.admit_download("token123", None, &range("bytes=50-99")).unwrap_err();
    assert_eq!(refusal.status(), 416);
    assert_eq!(refusal.content_range().as_deref(), Some("bytes */4"));
    assert_eq!(refusal.message(), "Invalid or unsatisfiable range");
    assert_eq!(refusal, DownloadRefusal::Range(UnsatisfiableRange { total: 4 }));
}

#[test]
fn zip_streams_do_not_advertise_range_support() {
    let mut session = session(folder_content(), false, None);
    later(&mut session);
    let plan = session.admit_download("token123", None, &range("bytes=0-3")).unwrap();
    assert_eq!(plan.status, 200);
    assert_eq!(plan.accept_ranges, "none");
    assert_eq!(plan.content_length, None);
    assert!(plan.range.is_none());
}

#[test]
fn transport_labels_match_mode() {
    let global = ResolvedSendMode::Global { provider: ProviderKind::Cloudflared };
    let local = ResolvedSendMode::Local { http_port: 8080, https_port: 8081 };

    assert_eq!(global.transport_label(), "HTTPS tunnel via cloudflared");
    assert_eq!(local.transport_label(), "HTTP primary + HTTPS optional");
}

#[test]
fn labels_follow_the_mode() {
    let global = ResolvedSendMode::Global { provider: ProviderKind::Native };
    let local = ResolvedSendMode::Local { http_port: 1, https_port: 2 };
    assert!(!global.is_local());
    assert!(local.is_local());
    assert_eq!(global.primary_link_label(), "Public HTTPS");
    assert_eq!(global.secondary_link_label(), None);
    assert_eq!(local.primary_link_label(), "Primary (No Warnings)");
    assert_eq!(local.secondary_link_label(), Some("Secondary (Encrypted)"));
    assert_eq!(global.badge_label(), "GLOBAL");
    assert_eq!(local.badge_label(), "LAN");
}

#[test]
fn refusals_come_in_order() {
    let mut session = session(file_content("f", 1), true, Some("123456"));
    let expired = Timestamp { nanos: 300_000_000_000 };
    let begin = |session: &SharedSession, token: &str, pin: Option<&str>, now: Timestamp| {
        session.begin_download_at(token, pin, now)
    };
    assert_eq!(begin(&session, "wrong", None, expired), Err(SessionRejection::InvalidToken));
    assert_eq!(begin(&session, "token123", None, expired), Err(SessionRejection::Expired));
    assert_eq!(begin(&session, "token123", None, IN_TIME), Err(SessionRejection::PinRequired));
    assert_eq!(
        begin(&session, "token123", Some("1"), IN_TIME),
        Err(SessionRejection::InvalidPin)
    );
    assert_eq!(begin(&session, "token123", Some("123456"), IN_TIME), Ok(()));
    assert_eq!(session.reserve_download(), Ok(()));
    assert_eq!(session.reserve_download(), Err(SessionRejection::Busy));
    assert!(session.finish_download(true));
    assert_eq!(
        begin(&session, "token123", Some("123456"), IN_TIME),
        Err(SessionRejection::AlreadyConsumed)
    );
    assert_eq!(session.reserve_download(), Err(SessionRejection::AlreadyConsumed));
}

#[test]
fn rejections_are_answered() {
    let answers = [
        (SessionRejection::InvalidToken, 404, "Beam session not found"),
        (SessionRejection::Expired, 410, "This Beam session has expired"),
        (SessionRejection::PinRequired, 401, "PIN required"),
        (SessionRejection::InvalidPin, 401, "Invalid PIN"),
        (
            SessionRejection::Busy,
            409,
            "Another burn-after-reading download is already in progress",
        ),
        (SessionRejection::AlreadyConsumed, 410, "This Beam session was already consumed"),
    ];
    for (rejection, status, message) in answers {
        assert_eq!(rejection.status(), status);
        assert_eq!(rejection.message(), message);
        let refusal = DownloadRefusal::Session(rejection);
        assert_eq!(refusal.status(), status);
        assert_eq!(refusal.message(), message);
        assert_eq!(refusal.content_range(), None);
    }
}

#[test]
fn expiry_counts_from_its_moment_on() {
    let session = session(file_content("f", 1), false, None);
    let just_before = Timestamp { nanos: 299_999_999_999 };
    let at = Timestamp { nanos: 300_000_000_000 };
    assert_eq!(session.admit_page_at("token123", just_before), Ok(()));
    assert_eq!(session.admit_page_at("token123", at), Err(SessionRejection::Expired));
}

#[test]
fn burn_after_reading_ends_with_one_download() {
    let mut session = session(file_content("f", 1), true, None);
    let first = session.admit_download_at("token123", None, None, IN_TIME);
    assert!(first.is_ok());
    let second = session.admit_download_at("token123", None, None, IN_TIME).unwrap_err();
    assert_eq!(second, DownloadRefusal::Session(SessionRejection::Busy));
    assert!(!session.finish_download(false));
    assert!(session.admit_download_at("token123", None, None, IN_TIME).is_ok());
    assert!(session.finish_download(true));
    let third = session.admit_download_at("token123", None, None, IN_TIME).unwrap_err();
    assert_eq!(third, DownloadRefusal::Session(SessionRejection::AlreadyConsumed));
    let seen = session.snapshot_at(IN_TIME);
    assert_eq!(seen.completed_downloads, 1);
    assert!(seen.consumed);
    assert!(!seen.active_download);
    assert_eq!(seen.provider_status, "Burn-after-reading completed");
}

#[test]
fn shared_downloads_do_not_block_each_other() {
    let mut session = session(file_content("f", 1), false, None);
    assert!(session.admit_download_at("token123", None, None, IN_TIME).is_ok());
    assert!(session.admit_download_at("token123", None, None, IN_TIME).is_ok());
    assert!(!session.finish_download(true));
    assert!(!session.finish_download(true));
    assert_eq!(session.state.completed_downloads, 2);
    assert!(!session.state.consumed);
}

#[test]
fn a_bad_range_takes_no_place() {
    let mut session = session(file_content("f", 4), true, None);
    let refusal = session.admit_download_at("token123", None, Some("bytes=9-"), IN_TIME);
    assert!(refusal.is_err());
    assert!(!session.state.active_download);
    assert!(session.admit_download_at("token123", None, None, IN_TIME).is_ok());
}

#[test]
fn a_wrong_token_learns_nothing_of_the_state() {
    let mut session = session(file_content("f", 4), true, Some("123456"));
    let fresh = session.admit_download_at("other", None, Some("x"), IN_TIME).unwrap_err();
    assert!(session.finish_download(true));
    let consumed = session.admit_download_at("other", None, Some("x"), IN_TIME).unwrap_err();
    assert_eq!(fresh, consumed);
    assert_eq!(fresh, DownloadRefusal::Session(SessionRejection::InvalidToken));
}

#[test]
fn bytes_are_counted_by_progress() {
    let mut session = session(file_content("f", 100), false, None);
    let mut last = 0;
    for total in [10, 10, 25, 20, 100] {
        last = session.record_progress(last, total);
    }
    assert_eq!(last, 100);
    assert_eq!(session.state.bytes_served, 105);
    session.record_bytes(5);
    assert_eq!(session.state.bytes_served, 110);
}

#[test]
fn warnings_are_kept_once() {
    let mut session = session(folder_content(), false, None);
    session.add_warning("slow".to_string());
    session.add_warning("slow".to_string());
    session.add_warning("late".to_string());
    let seen = session.snapshot_at(IN_TIME);
    assert_eq!(seen.warnings, vec!["Skipping symlink link", "slow", "late"]);
}

#[test]
fn a_snapshot_shows_the_session() {
    let mut session = session(file_content("f.txt", 7), true, Some("123456"));
    assert_eq!(session.snapshot_at(IN_TIME).provider_status, "Preparing session");
    session.set_links("http://a".to_string(), Some("https://a".to_string()));
    session.set_provider_status("ready".to_string());
    session.set_mode(ResolvedSendMode::Global { provider: ProviderKind::Pinggy });
    let seen = session.snapshot_at(IN_TIME);
    assert_eq!(seen.display_name, "f.txt");
    assert_eq!(seen.content_kind, "file");
    assert_eq!(seen.transport_label, "HTTPS tunnel via Pinggy SSH");
    assert_eq!(seen.content_length, Some(7));
    assert_eq!(seen.remaining, Duration::from_secs(299));
    assert!(seen.once);
    assert!(seen.requires_pin);
    assert_eq!(seen.revealed_pin.as_deref(), Some("123456"));
    assert_eq!(seen.primary_link, "http://a");
    assert_eq!(seen.secondary_link.as_deref(), Some("https://a"));
    assert_eq!(seen.provider_status, "ready");
    assert_eq!(seen.token, "token123");
    assert_eq!(session.token(), "token123");
    assert_eq!(session.expires_at().nanos, 300_000_000_000);
    assert_eq!(session.content().display_name(), "f.txt");
}

#[test]
fn the_clock_decides_on_expiry() {
    let mut session = session(file_content("f", 1), false, None);
    assert_eq!(session.begin_download("token123", None), Err(SessionRejection::Expired));
    assert!(session.snapshot().remaining.is_zero());
    later(&mut session);
    assert_eq!(session.begin_download("token123", None), Ok(()));
    assert!(!session.snapshot().remaining.is_zero());
}

#[test]
fn ranges_are_read() {
    let granted = |header: &str, total: u64| {
        parse_range_header(header, total).ok().map(|range| (range.start, range.end))
    };
    assert_eq!(granted("bytes=5-9", 10), Some((5, 9)));
    assert_eq!(granted("bytes=5-99", 10), Some((5, 9)));
    assert_eq!(granted("bytes=5-", 10), Some((5, 9)));
    assert_eq!(granted("bytes=-3", 10), Some((7, 9)));
    assert_eq!(granted("bytes=-30", 10), Some((0, 9)));
    assert_eq!(granted("bytes=+1-+2", 10), Some((1, 2)));
    assert_eq!(granted("bytes=-0", 10), None);
    assert_eq!(granted("bytes=10-", 10), None);
    assert_eq!(granted("bytes=6-5", 10), None);
    assert_eq!(granted("bytes=0-1,3-4", 10), None);
    assert_eq!(granted("bytes=-", 10), None);
    assert_eq!(granted("bytes=5", 10), None);
    assert_eq!(granted("bytes=a-b", 10), None);
    assert_eq!(granted("items=0-1", 10), None);
    assert_eq!(granted("bytes=0-0", 0), None);
    assert_eq!(granted("bytes=0-18446744073709551616", 10), None);
}

#[test]
fn ranges_know_their_length() {
    let range = RequestedRange { start: 2, end: 4 };
    assert_eq!(range.len(), 3);
    assert_eq!(range.content_range(9), "bytes 2-4/9");
}

#[test]
fn answers_carry_their_headers() {
    let plan = plan_download(&file_content("a", 10), Some("bytes=2-3")).unwrap();
    let pairs: Vec<(String, String)> = download_headers("a\"b.txt", &plan)
        .into_iter()
        .map(|pair| (pair.name, pair.value))
        .collect();
    let expected: Vec<(String, String)> = [
        ("content-type", "application/octet-stream"),
        ("content-disposition", "attachment; filename=\"ab.txt\""),
        ("accept-ranges", "bytes"),
        ("content-range", "bytes 2-3/10"),
        ("content-length", "2"),
    ]
    .iter()
    .map(|(name, value)| (name.to_string(), value.to_string()))
    .collect();
    assert_eq!(pairs, expected);
}

#[test]
fn a_name_that_fits_no_header_is_left_out() {
    let plan = plan_download(&folder_content(), None).unwrap();
    let pairs = download_headers("a\nb", &plan);
    assert!(pairs.iter().all(|pair| pair.name != "content-disposition"));
    assert_eq!(pairs.len(), 2);
    assert_eq!(content_disposition("\"\""), "attachment; filename=\"\"");
}

#[test]
fn the_first_range_header_counts() {
    let mut headers = range("bytes=0-0");
    headers.append("range", HeaderValue::from_static("bytes=1-2"));
    let mut first = session(file_content("f", 4), false, None);
    later(&mut first);
    let plan = first.admit_download("token123", None, &headers).unwrap();
    assert_eq!(plan.content_range.as_deref(), Some("bytes 0-0/4"));
    let mut opaque = HeaderMap::new();
    opaque.insert("range", HeaderValue::from_bytes(&[0xff]).unwrap());
    let plan = first.admit_download("token123", None, &opaque).unwrap();
    assert_eq!(plan.status, 200);
}

#[test]
fn a_stored_digest_guards_the_content() {
    let mut session = session(file_content("f", 4), false, None);
    session.access = AccessPolicy {
        expires_at: Timestamp { nanos: 300_000_000_000 },
        once: false,
        pin_hash: Some(hash_pin("9")),
    };
    assert!(session.admit_download_at("token123", Some("9"), None, IN_TIME).is_ok());
    assert!(session.admit_download_at("token123", None, None, IN_TIME).is_err());
}

#[test]
fn counters_add_up_over_a_whole_run() {
    let mut session = session(file_content("hello.txt", 4), false, None);
    let mut finished = 0;
    for (bytes, success) in [(3, true), (0, false), (7, true), (5, false), (1, true)] {
        session.reserve_download().unwrap();
        session.record_bytes(bytes);
        session.set_provider_status("busy".to_string());
        session.finish_download(success);
        finished += u64::from(success);
    }
    assert_eq!(session.state.completed_downloads, finished);
    assert_eq!(session.state.completed_downloads, 3);
    assert_eq!(session.state.bytes_served, 16);
}
