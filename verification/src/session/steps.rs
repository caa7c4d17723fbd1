//! What every call on a session does to it, and what it leaves alone.
use vstd::prelude::*;

use axum::http::{HeaderMap, HeaderValue};

use crate::access;
use crate::content::{ContentKind, ContentSource};
use crate::decimal;
use crate::duration::Timestamp;
use crate::relay_protocol;
use crate::relay_protocol::HeaderPair;
use crate::session::answers;
use crate::session::download;
use crate::session::download::{DownloadPlan, DownloadRefusal, UnsatisfiableRange};
use crate::session::range;
use crate::session::range::{InvalidRange, RequestedRange};
use crate::session::{ResolvedSendMode, SessionRejection, SessionSnapshot, SharedSession};
use crate::text;

verus! {

/// What a session is about and how it is reached is the same.
pub open spec fn same_offer(after: SharedSession, before: SharedSession) -> bool {
    &&& after.token == before.token
    &&& after.content == before.content
    &&& after.access == before.access
    &&& after.revealed_pin == before.revealed_pin
    &&& after.state.mode == before.state.mode
    &&& after.state.primary_link == before.state.primary_link
    &&& after.state.secondary_link == before.state.secondary_link
    &&& after.state.warnings == before.state.warnings
}

/// How far the downloads of a session have come is the same.
pub open spec fn same_progress(after: SharedSession, before: SharedSession) -> bool {
    &&& after.state.completed_downloads == before.state.completed_downloads
    &&& after.state.bytes_served == before.state.bytes_served
    &&& after.state.active_download == before.state.active_download
    &&& after.state.consumed == before.state.consumed
}

/// The page is shown to those who have the token, until the session expires.
pub proof fn page_is_shown_to_the_invited(
    session: SharedSession,
    token: &str,
    now: Timestamp,
    res: Result<(), SessionRejection>,
)
    requires
        call_ensures(SharedSession::admit_page_at, (&session, token, now), res),
    ensures
        res is Ok <==> token@ == session.token@ && now.nanos < session.access.expires_at.nanos,
        token@ != session.token@ ==> res == Err::<(), SessionRejection>(
            SessionRejection::InvalidToken,
        ),
        token@ == session.token@ && res is Err ==> res == Err::<(), SessionRejection>(
            SessionRejection::Expired,
        ),
{
}

/// Whoever asks for the content is let in with the token and the PIN, in time, and before it
/// was burnt; the others are told the first thing that is wrong.
pub proof fn content_is_given_to_the_invited(
    session: SharedSession,
    token: &str,
    pin: Option<&str>,
    now: Timestamp,
    res: Result<(), SessionRejection>,
)
    requires
        call_ensures(SharedSession::begin_download_at, (&session, token, pin, now), res),
    ensures
        ({
            let known = token@ == session.token@;
            let in_time = now.nanos < session.access.expires_at.nanos;
            let trusted = answers::has_the_pin(session, text::optional_str(pin));
            &&& res is Ok <==> known && in_time && trusted && !session.state.consumed
            &&& res == Err::<(), SessionRejection>(SessionRejection::InvalidToken) <==> !known
            &&& res == Err::<(), SessionRejection>(SessionRejection::Expired) <==> known
                && !in_time
            &&& res == Err::<(), SessionRejection>(SessionRejection::PinRequired) <==> known
                && in_time && !trusted && pin is None
            &&& res == Err::<(), SessionRejection>(SessionRejection::InvalidPin) <==> known
                && in_time && !trusted && pin is Some
            &&& res == Err::<(), SessionRejection>(SessionRejection::AlreadyConsumed) <==> known
                && in_time && trusted && session.state.consumed
        }),
{
}

/// A download takes its place unless the content was burnt or is being burnt. Where it will be
/// burnt, nobody else can take the place until the download has ended; nothing else changes.
pub proof fn place_is_taken_once(
    session: &mut SharedSession,
    res: Result<(), SessionRejection>,
)
    requires
        call_ensures(SharedSession::reserve_download, (session,), res),
    ensures
        res is Ok <==> !old(session).state.consumed && !(old(session).access.once
            && old(session).state.active_download),
        res == Err::<(), SessionRejection>(SessionRejection::AlreadyConsumed)
            <==> old(session).state.consumed,
        res is Ok && old(session).access.once ==> final(session).state.active_download,
        res is Err || !old(session).access.once ==> *final(session) == *old(session),
        final(session).state.consumed == old(session).state.consumed,
        final(session).state.completed_downloads == old(session).state.completed_downloads,
        final(session).state.bytes_served == old(session).state.bytes_served,
        final(session).state.provider_status == old(session).state.provider_status,
        same_offer(*final(session), *old(session)),
{
}

/// The bytes that were sent are counted, and nothing else changes.
pub proof fn bytes_are_counted(session: &mut SharedSession, count: u64)
    requires
        old(session).state.bytes_served + count <= u64::MAX,
        call_ensures(SharedSession::record_bytes, (session, count), ()),
    ensures
        final(session).state.bytes_served == old(session).state.bytes_served + count,
        final(session).state.completed_downloads == old(session).state.completed_downloads,
        final(session).state.active_download == old(session).state.active_download,
        final(session).state.consumed == old(session).state.consumed,
        final(session).state.provider_status == old(session).state.provider_status,
        same_offer(*final(session), *old(session)),
{
}

/// Of a running total, the part that is new is counted; a total that went back counts nothing.
pub proof fn progress_is_counted(
    session: &mut SharedSession,
    last_total: u64,
    total: u64,
    res: u64,
)
    requires
        old(session).state.bytes_served + total <= u64::MAX,
        call_ensures(SharedSession::record_progress, (session, last_total, total), res),
    ensures
        res == total,
        last_total <= total
            ==> final(session).state.bytes_served - old(session).state.bytes_served
            == total - last_total,
        last_total > total ==> final(session).state.bytes_served == old(session).state.bytes_served,
        final(session).state.completed_downloads == old(session).state.completed_downloads,
        final(session).state.active_download == old(session).state.active_download,
        final(session).state.consumed == old(session).state.consumed,
        final(session).state.provider_status == old(session).state.provider_status,
        same_offer(*final(session), *old(session)),
{
}

/// A download that succeeds is counted, and burns the content where that was asked for; the
/// session ends with it only then. One that fails counts for nothing and makes room for the
/// next.
pub proof fn end_of_download_is_noted(session: &mut SharedSession, success: bool, res: bool)
    requires
        old(session).state.completed_downloads < u64::MAX,
        call_ensures(SharedSession::finish_download, (session, success), res),
    ensures
        res <==> success && old(session).access.once,
        success ==> final(session).state.completed_downloads
            == old(session).state.completed_downloads + 1,
        !success ==> final(session).state.completed_downloads
            == old(session).state.completed_downloads,
        success && old(session).access.once ==> final(session).state.consumed,
        !(success && old(session).access.once) ==> final(session).state.consumed
            == old(session).state.consumed && final(session).state.provider_status
            == old(session).state.provider_status,
        success && old(session).access.once ==> final(session).state.provider_status@
            == "Burn-after-reading completed"@,
        old(session).access.once ==> !final(session).state.active_download,
        !old(session).access.once ==> final(session).state.active_download
            == old(session).state.active_download,
        final(session).state.bytes_served == old(session).state.bytes_served,
        same_offer(*final(session), *old(session)),
{
}

/// A new session starts with nothing sent, nothing burnt, no links and no warnings, in the mode
/// and with the content that it was made for.
pub proof fn new_session_is_fresh(
    token: String,
    content: ContentSource,
    policy: access::AccessPolicy,
    revealed_pin: Option<String>,
    mode: ResolvedSendMode,
    res: SharedSession,
)
    requires
        call_ensures(SharedSession::new, (token, content, policy, revealed_pin, mode), res),
    ensures
        res.token == token,
        res.content == content,
        res.access == policy,
        res.revealed_pin == revealed_pin,
        res.state.mode == mode,
        !res.state.consumed && !res.state.active_download,
        res.state.completed_downloads == 0 && res.state.bytes_served == 0,
        res.state.secondary_link is None,
        res.state.warnings@.len() == 0,
        res.state.provider_status@ == "Preparing session"@,
{
}

/// The links, the status and the mode that are set are those that the session has from then on;
/// the counters and what was burnt stay as they are.
pub proof fn what_is_set_stays_set(
    linked: &mut SharedSession,
    primary: String,
    secondary: Option<String>,
    stated: &mut SharedSession,
    status: String,
    moved: &mut SharedSession,
    mode: ResolvedSendMode,
)
    requires
        call_ensures(SharedSession::set_links, (linked, primary, secondary), ()),
        call_ensures(SharedSession::set_provider_status, (stated, status), ()),
        call_ensures(SharedSession::set_mode, (moved, mode), ()),
    ensures
        final(linked).state.primary_link == primary,
        final(linked).state.secondary_link == secondary,
        final(linked).state.provider_status == old(linked).state.provider_status,
        final(linked).state.mode == old(linked).state.mode,
        final(linked).state.warnings == old(linked).state.warnings,
        final(linked).token == old(linked).token,
        final(linked).access == old(linked).access,
        same_progress(*final(linked), *old(linked)),
        final(stated).state.provider_status == status,
        same_offer(*final(stated), *old(stated)),
        same_progress(*final(stated), *old(stated)),
        final(moved).state.mode == mode,
        final(moved).state.primary_link == old(moved).state.primary_link,
        final(moved).state.secondary_link == old(moved).state.secondary_link,
        final(moved).state.provider_status == old(moved).state.provider_status,
        final(moved).state.warnings == old(moved).state.warnings,
        final(moved).token == old(moved).token,
        final(moved).access == old(moved).access,
        same_progress(*final(moved), *old(moved)),
{
}

/// A warning that is added is there, those before it stay in their places, and one that was
/// there already is not added again.
pub proof fn warning_is_kept_once(session: &mut SharedSession, warning: String, i: int)
    requires
        call_ensures(SharedSession::add_warning, (session, warning), ()),
    ensures
        text::views(final(session).state.warnings@).contains(warning@),
        0 <= i < old(session).state.warnings@.len() ==> i < final(session).state.warnings@.len()
            && final(session).state.warnings@[i] == old(session).state.warnings@[i],
        text::views(old(session).state.warnings@).contains(warning@)
            ==> final(session).state.warnings@ == old(session).state.warnings@,
        final(session).state.warnings@.len() <= old(session).state.warnings@.len() + 1,
        final(session).token == old(session).token,
        final(session).access == old(session).access,
        final(session).state.mode == old(session).state.mode,
        final(session).state.primary_link == old(session).state.primary_link,
        final(session).state.provider_status == old(session).state.provider_status,
        same_progress(*final(session), *old(session)),
{
    let before = old(session).state.warnings@;
    let after = final(session).state.warnings@;
    if !text::views(before).contains(warning@) {
        assert(text::views(after)[before.len() as int] == warning@);
    }
}

/// A file is answered as a whole where no range is asked for, and with the bytes of the range
/// where one is; an archive is always answered as a whole.
pub proof fn download_is_planned_as_asked(
    content: ContentSource,
    header: Option<&str>,
    res: Result<DownloadPlan, UnsatisfiableRange>,
)
    requires
        call_ensures(download::plan_download, (&content, header), res),
    ensures
        content.kind is DirectoryZip || header is None ==> res is Ok,
        res matches Err(error) ==> content.kind == (ContentKind::File { size: error.total }),
        res matches Ok(plan) ==> {
            &&& plan.status == (if plan.range is Some {
                206u16
            } else {
                200u16
            })
            &&& plan.content_range is Some <==> plan.range is Some
            &&& content.kind is DirectoryZip ==> plan.range is None && plan.content_length is None
                && plan.accept_ranges@ == "none"@
            &&& content.kind is File ==> plan.accept_ranges@ == "bytes"@
            &&& plan.range is None ==> (content.kind matches ContentKind::File { size }
                ==> plan.content_length == Some(size))
            &&& plan.range matches Some(part) ==> content.kind matches ContentKind::File { size }
                && part.start <= part.end < size && plan.content_length is Some
                && plan.content_length->Some_0 == part.end - part.start + 1
                && text::optional(plan.content_range) == Some(
                "bytes "@ + decimal::decimal(part.start as nat) + "-"@ + decimal::decimal(
                    part.end as nat,
                ) + "/"@ + decimal::decimal(size as nat),
            )
        },
        header is Some && content.kind is File ==> (res matches Ok(plan) ==> plan.range is Some),
{
    if let (ContentKind::File { size }, Some(asked)) = (content.kind, header) {
        range::granted_range_lies_in_file(asked@, size);
    }
    if let Ok(plan) = res {
        let view = plan@;
        assert(Some(view) == download::plan_for(content, text::optional_str(header)));
    }
}

/// A range is granted as it was asked for: from the first to the last byte that it names, from
/// the first to the end of the file, or as many bytes as it names at the end of the file. Where
/// the last byte lies behind the end of the file, the range ends with the file.
pub proof fn range_is_granted_as_asked(
    header: &str,
    first: u64,
    last: u64,
    total: u64,
    res: Result<RequestedRange, InvalidRange>,
)
    requires
        call_ensures(range::parse_range_header, (header, total), res),
    ensures
        header@ == "bytes="@ + decimal::decimal(first as nat) + "-"@ + decimal::decimal(
            last as nat,
        ) && first <= last && first < total ==> res == Ok::<RequestedRange, InvalidRange>(
            RequestedRange {
                start: first,
                end: if last < total {
                    last
                } else {
                    (total - 1) as u64
                },
            },
        ),
        header@ == "bytes="@ + decimal::decimal(first as nat) + "-"@ && first < total ==> res
            == Ok::<RequestedRange, InvalidRange>(
            RequestedRange { start: first, end: (total - 1) as u64 },
        ),
        header@ == "bytes=-"@ + decimal::decimal(last as nat) && 0 < last && 0 < total ==> res
            == Ok::<RequestedRange, InvalidRange>(
            RequestedRange {
                start: if last < total {
                    (total - last) as u64
                } else {
                    0
                },
                end: (total - 1) as u64,
            },
        ),
        header@ == "bytes="@ + decimal::decimal(first as nat) + "-"@ + decimal::decimal(
            last as nat,
        ) && (last < first || total <= first) ==> res is Err,
        !text::starts_with(header@, "bytes="@) || header@.contains(',') || !header@.contains('-')
            ==> res is Err,
        res matches Ok(part) ==> part.start <= part.end < total,
{
    if header@ == range::range_header(first, last) {
        if first <= last && last < total {
            range::range_in_file_is_granted(first, last, total);
        } else if first <= last && first < total {
            answers::range_over_the_end_is_cut(first, last, total);
        } else if last < first {
            answers::backward_range_is_refused(first, last, total);
        } else {
            range::range_behind_end_is_refused(first, last, total);
        }
    }
    if first < total {
        range::interrupted_download_resumes(first, total);
    }
    if 0 < last && 0 < total {
        range::suffix_is_granted(last, total);
    }
    if !text::starts_with(header@, "bytes="@) || header@.contains(',') || !header@.contains('-') {
        answers::odd_ranges_are_refused(header@, total);
    }
}

/// Admission comes down to the token, the time, the PIN, the range and the place; who is turned
/// away leaves the session as it was, and who is let in takes a place that nobody else can take
/// where the content is to be burnt.
pub proof fn admission_follows_the_rules(
    session: &mut SharedSession,
    token: &str,
    pin: Option<&str>,
    header: Option<&str>,
    now: Timestamp,
    res: Result<DownloadPlan, DownloadRefusal>,
)
    requires
        call_ensures(SharedSession::admit_download_at, (session, token, pin, header, now), res),
    ensures
        res is Ok ==> token@ == old(session).token@
            && now.nanos < old(session).access.expires_at.nanos
            && answers::has_the_pin(*old(session), text::optional_str(pin))
            && !old(session).state.consumed,
        res is Ok && old(session).access.once ==> !old(session).state.active_download
            && final(session).state.active_download,
        res is Err ==> *final(session) == *old(session),
        header is None && token@ == old(session).token@
            && now.nanos < old(session).access.expires_at.nanos
            && answers::has_the_pin(*old(session), text::optional_str(pin))
            && !old(session).state.consumed && !(old(session).access.once
            && old(session).state.active_download) ==> res is Ok,
        res matches Ok(plan) ==> (header is None ==> plan.range is None && plan.status == 200),
        same_offer(*final(session), *old(session)),
        final(session).state.provider_status == old(session).state.provider_status,
        final(session).state.consumed == old(session).state.consumed,
        final(session).state.completed_downloads == old(session).state.completed_downloads,
        final(session).state.bytes_served == old(session).state.bytes_served,
{
    answers::each_refusal_has_its_reason(
        *old(session),
        token@,
        text::optional_str(pin),
        now,
    );
    if let Ok(plan) = res {
        let view = plan@;
        assert(Some(view) == download::plan_for(old(session).content, text::optional_str(header)));
    }
}

/// The headers of an answer announce its length, its type, the name of the file and the place
/// of the part, each once, and a length only where it is known.
pub proof fn headers_tell_the_plan(
    file_name: &str,
    plan: DownloadPlan,
    res: Vec<HeaderPair>,
)
    requires
        call_ensures(download::download_headers, (file_name, &plan), res),
    ensures
        ({
            let sent = relay_protocol::pair_views(res@);
            &&& plan.content_length matches Some(length) ==> answers::values_of(
                sent,
                "content-length"@,
            ) == seq![decimal::decimal(length as nat)]
            &&& plan.content_length is None ==> answers::values_of(sent, "content-length"@).len()
                == 0
            &&& answers::values_of(sent, "content-type"@) == seq!["application/octet-stream"@]
            &&& answers::values_of(sent, "accept-ranges"@) == seq![plan.accept_ranges@]
            &&& plan.content_range matches Some(place) ==> answers::values_of(
                sent,
                "content-range"@,
            ) == seq![place@]
            &&& plan.content_range is None ==> answers::values_of(sent, "content-range"@).len()
                == 0
            &&& crate::headers::is_header_value(file_name@) && !file_name@.contains('"')
                ==> answers::values_of(sent, "content-disposition"@) == seq![
                "attachment; filename=\""@ + file_name@ + "\""@,
            ]
        }),
{
    answers::answer_announces_its_length(file_name@, plan@);
    answers::answer_describes_download(file_name@, plan@);
    if !file_name@.contains('"') {
        answers::file_name_is_handed_on(file_name@);
    }
}

/// A header whose bounds are no numbers, or that names none or no bytes at all, is refused.
pub proof fn unreadable_ranges_are_refused(
    header: &str,
    first: Seq<char>,
    last: Seq<char>,
    total: u64,
    res: Result<RequestedRange, InvalidRange>,
)
    requires
        call_ensures(range::parse_range_header, (header, total), res),
        header@ == "bytes="@ + first + "-"@ + last,
        !first.contains('-'),
    ensures
        res is Ok ==> {
            &&& first.len() > 0 ==> decimal::parsed(first) is Some
            &&& last.len() > 0 ==> decimal::parsed(last) is Some
            &&& first.len() > 0 || last.len() > 0
            &&& first.len() == 0 ==> decimal::parsed(last) != Some(0u64)
        },
{
    reveal_strlit("bytes=");
    reveal_strlit("-");
    let bounds = header@.skip(6);
    assert(bounds =~= first + "-"@ + last);
    assert(bounds[first.len() as int] == '-');
    bounds.index_of_first_ensures('-');
    let at = bounds.index_of_first('-').unwrap();
    if at < first.len() {
        assert(bounds[at] == first[at]);
    }
    assert(at == first.len());
    assert(bounds.take(at) =~= first);
    assert(bounds.skip(at + 1) =~= last);
}

/// Quotation marks are left out of the name of a file, and nothing else is.
pub proof fn quotes_are_left_out(
    before: Seq<char>,
    behind: Seq<char>,
    quoted: &str,
    quoted_res: String,
    plain: &str,
    plain_res: String,
)
    requires
        quoted@ == before.push('"') + behind,
        plain@ == before + behind,
        call_ensures(download::content_disposition, (quoted,), quoted_res),
        call_ensures(download::content_disposition, (plain,), plain_res),
    ensures
        quoted_res@ == plain_res@,
        !plain@.contains('"') ==> plain_res@ == "attachment; filename=\""@ + plain@ + "\""@,
{
    let keep = |c: char| c != '"';
    Seq::<char>::filter_distributes_over_add(before.push('"'), behind, keep);
    Seq::<char>::filter_distributes_over_add(before, behind, keep);
    Seq::<char>::filter_distributes_over_add(before, seq!['"'], keep);
    assert(before + seq!['"'] =~= before.push('"'));
    assert(seq!['"'].filter(keep) =~= Seq::<char>::empty()) by {
        reveal(Seq::filter);
        assert(seq!['"'].drop_last() =~= Seq::<char>::empty());
        assert(Seq::<char>::empty().filter(keep) =~= Seq::<char>::empty());
    }
    assert(before.filter(keep) + Seq::<char>::empty() =~= before.filter(keep));
    if !plain@.contains('"') {
        answers::file_name_is_handed_on(plain@);
    }
}

/// Whoever asks for a download is answered by the range that the `Range` header of the request
/// names, and by the whole file where there is no such header.
pub proof fn range_header_is_obeyed(
    session: &mut SharedSession,
    token: &str,
    pin: Option<&str>,
    map: HeaderMap<HeaderValue>,
    res: Result<DownloadPlan, DownloadRefusal>,
)
    requires
        call_ensures(SharedSession::admit_download, (session, token, pin, &map), res),
    ensures
        ({
            let asked = crate::headers::first_text(
                crate::headers::header_entries(map),
                "range"@,
            );
            &&& res is Ok ==> token@ == old(session).token@ && answers::has_the_pin(
                *old(session),
                text::optional_str(pin),
            ) && !old(session).state.consumed
            &&& token@ != old(session).token@ ==> res == Err::<DownloadPlan, DownloadRefusal>(
                DownloadRefusal::Session(SessionRejection::InvalidToken),
            )
            &&& res is Err ==> *final(session) == *old(session)
            &&& res matches Ok(plan) ==> (asked is None ==> plan.range is None && plan.status
                == 200)
            &&& res matches Ok(plan) ==> (old(session).content.kind matches ContentKind::File {
                size,
            } ==> (asked matches Some(header) ==> plan.range is Some && plan.range
                == range::range_of_header(header, size) && plan.status == 206))
            &&& res is Ok && old(session).access.once ==> final(session).state.active_download
        }),
{
    if let Ok(plan) = res {
        let view = plan@;
        let asked = crate::headers::first_text(crate::headers::header_entries(map), "range"@);
        assert(Some(view) == download::plan_for(old(session).content, asked));
    }
}

/// Whoever asks to be let in is told the truth, whenever they ask: with a wrong token that
/// there is no such session, with a wrong PIN that it is wrong, and so on.
pub proof fn download_begins_for_the_invited(
    session: SharedSession,
    token: &str,
    pin: Option<&str>,
    res: Result<(), SessionRejection>,
)
    requires
        call_ensures(SharedSession::begin_download, (&session, token, pin), res),
    ensures
        token@ != session.token@ <==> res == Err::<(), SessionRejection>(
            SessionRejection::InvalidToken,
        ),
        res is Ok ==> answers::has_the_pin(session, text::optional_str(pin))
            && !session.state.consumed,
        res matches Err(rejection) ==> {
            &&& rejection == SessionRejection::PinRequired ==> pin is None
                && session.access.pin_hash is Some
            &&& rejection == SessionRejection::InvalidPin ==> pin is Some && !answers::has_the_pin(
                session,
                text::optional_str(pin),
            )
            &&& rejection == SessionRejection::AlreadyConsumed ==> session.state.consumed
            &&& rejection != SessionRejection::Busy
        },
{
}

/// A session tells its own token, expiry and content, and a mode what it is.
pub proof fn session_tells_its_own(
    session: SharedSession,
    token: &str,
    expiry: Timestamp,
    content: &ContentSource,
    mode: ResolvedSendMode,
    local: bool,
    badge: &'static str,
    first: &'static str,
)
    requires
        call_ensures(SharedSession::token, (&session,), token),
        call_ensures(SharedSession::expires_at, (&session,), expiry),
        call_ensures(SharedSession::content, (&session,), content),
        call_ensures(ResolvedSendMode::is_local, (&mode,), local),
        call_ensures(ResolvedSendMode::badge_label, (&mode,), badge),
        call_ensures(ResolvedSendMode::primary_link_label, (&mode,), first),
    ensures
        token@ == session.token@,
        expiry == session.access.expires_at,
        *content == session.content,
        local <==> mode is Local,
        badge@ == if local {
            "LAN"@
        } else {
            "GLOBAL"@
        },
        first@ == if local {
            "Primary (No Warnings)"@
        } else {
            "Public HTTPS"@
        },
{
}

/// A range has as many bytes as lie between its ends, both of them counted.
pub proof fn range_counts_its_bytes(part: RequestedRange, count: u64, total: u64, shown: String)
    requires
        part.start <= part.end < u64::MAX,
        call_ensures(RequestedRange::len, (part,), count),
        call_ensures(RequestedRange::content_range, (part, total), shown),
    ensures
        count == part.end - part.start + 1,
        shown@ == "bytes "@ + decimal::decimal(part.start as nat) + "-"@ + decimal::decimal(
            part.end as nat,
        ) + "/"@ + decimal::decimal(total as nat),
{
}

/// What is seen of a session now is the session: its names, links, rules and counters.
pub proof fn snapshot_is_of_the_session(session: SharedSession, seen: SessionSnapshot)
    requires
        call_ensures(SharedSession::snapshot, (&session,), seen),
    ensures
        seen.token@ == session.token@,
        seen.display_name@ == session.content.display_name@,
        seen.download_name@ == session.content.download_name@,
        seen.primary_link@ == session.state.primary_link@,
        text::optional(seen.secondary_link) == text::optional(session.state.secondary_link),
        seen.provider_status@ == session.state.provider_status@,
        seen.once == session.access.once,
        seen.requires_pin <==> session.access.pin_hash is Some,
        seen.completed_downloads == session.state.completed_downloads,
        seen.bytes_served == session.state.bytes_served,
        seen.active_download == session.state.active_download,
        seen.consumed == session.state.consumed,
        seen.expires_at == session.access.expires_at,
        seen.mode == session.state.mode,
{
    let now = choose|now: Timestamp| now.on_clock() && seen@ == #[trigger] session.seen_at(now);
    let view = seen@;
    assert(view == session.seen_at(now));
    assert(view.token == session.token@);
}

} // verus!
