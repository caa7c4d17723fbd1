//! What every answer of a session tells the visitor.
use vstd::prelude::*;

use crate::access;
use crate::content::{ContentKind, ContentSource};
use crate::decimal;
use crate::duration;
use crate::duration::Timestamp;
use crate::headers;
use crate::session::download;
use crate::session::download::{DownloadRefusal, PlanView, UnsatisfiableRange};
use crate::session::range;
use crate::session::range::RequestedRange;
use crate::session::{ResolvedSendMode, SessionRejection, SessionSnapshot, SharedSession};
use crate::text;

verus! {

/// The values that stand under a name, in their order.
pub open spec fn values_of(pairs: Seq<(Seq<char>, Seq<char>)>, name: Seq<char>) -> Seq<Seq<char>>
    decreases pairs.len(),
{
    if pairs.len() == 0 {
        Seq::empty()
    } else if pairs[0].0 == name {
        seq![pairs[0].1] + values_of(pairs.skip(1), name)
    } else {
        values_of(pairs.skip(1), name)
    }
}

proof fn lemma_values_add(
    pairs: Seq<(Seq<char>, Seq<char>)>,
    last: (Seq<char>, Seq<char>),
    name: Seq<char>,
)
    ensures
        values_of(pairs.push(last), name) == values_of(pairs, name) + (if last.0 == name {
            seq![last.1]
        } else {
            Seq::empty()
        }),
    decreases pairs.len(),
{
    let all = pairs.push(last);
    if pairs.len() == 0 {
        assert(all.skip(1) =~= Seq::empty());
        assert(values_of(all.skip(1), name) =~= Seq::<Seq<char>>::empty());
        assert(values_of(all, name) =~= values_of(pairs, name) + (if last.0 == name {
            seq![last.1]
        } else {
            Seq::empty()
        }));
    } else {
        lemma_values_add(pairs.skip(1), last, name);
        assert(all.skip(1) =~= pairs.skip(1).push(last));
        assert(values_of(all, name) =~= values_of(pairs, name) + (if last.0 == name {
            seq![last.1]
        } else {
            Seq::empty()
        }));
    }
}

/// An optional value as a sequence.
pub open spec fn at_most_one(value: Option<Seq<char>>) -> Seq<Seq<char>> {
    match value {
        Some(value) => seq![value],
        None => Seq::empty(),
    }
}

proof fn lemma_names_differ()
    ensures
        "content-type"@ != "content-disposition"@,
        "content-type"@ != "accept-ranges"@,
        "content-type"@ != "content-range"@,
        "content-type"@ != "content-length"@,
        "content-disposition"@ != "accept-ranges"@,
        "content-disposition"@ != "content-range"@,
        "content-disposition"@ != "content-length"@,
        "accept-ranges"@ != "content-range"@,
        "accept-ranges"@ != "content-length"@,
        "content-range"@ != "content-length"@,
{
    reveal_strlit("content-type");
    reveal_strlit("content-disposition");
    reveal_strlit("accept-ranges");
    reveal_strlit("content-range");
    reveal_strlit("content-length");
    assert("content-type"@[8] == 't');
    assert("content-disposition"@[8] == 'd');
    assert("accept-ranges"@[0] == 'a');
    assert("content-range"@[8] == 'r');
    assert("content-length"@[8] == 'l');
    assert("content-type"@[0] == 'c');
    assert("content-disposition"@[0] == 'c');
    assert("content-range"@[0] == 'c');
    assert("content-length"@[0] == 'c');
}

proof fn lemma_values_of_answer(file_name: Seq<char>, plan: PlanView, name: Seq<char>)
    ensures
        values_of(download::answer_headers(file_name, plan), name) == (if name
            == "content-type"@ {
            seq!["application/octet-stream"@]
        } else {
            Seq::empty()
        }) + (if name == "content-disposition"@ && headers::is_header_value(
            download::disposition(file_name),
        ) {
            seq![download::disposition(file_name)]
        } else {
            Seq::empty()
        }) + (if name == "accept-ranges"@ {
            seq![plan.accept_ranges]
        } else {
            Seq::empty()
        }) + (if name == "content-range"@ {
            at_most_one(plan.content_range)
        } else {
            Seq::empty()
        }) + (if name == "content-length"@ {
            match plan.content_length {
                Some(length) => seq![decimal::decimal(length as nat)],
                None => Seq::empty(),
            }
        } else {
            Seq::empty()
        }),
{
    lemma_names_differ();
    let none = Seq::<(Seq<char>, Seq<char>)>::empty();
    let first = ("content-type"@, "application/octet-stream"@);
    let typed = seq![first];
    assert(typed =~= none.push(first));
    lemma_values_add(none, first, name);
    assert(values_of(none, name) =~= Seq::<Seq<char>>::empty());
    let second = ("content-disposition"@, download::disposition(file_name));
    let named = if headers::is_header_value(download::disposition(file_name)) {
        typed.push(second)
    } else {
        typed
    };
    lemma_values_add(typed, second, name);
    let third = ("accept-ranges"@, plan.accept_ranges);
    let ranged = named.push(third);
    lemma_values_add(named, third, name);
    let placed = match plan.content_range {
        Some(content_range) => {
            lemma_values_add(ranged, ("content-range"@, content_range), name);
            ranged.push(("content-range"@, content_range))
        },
        None => ranged,
    };
    if let Some(length) = plan.content_length {
        lemma_values_add(
            placed,
            ("content-length"@, decimal::decimal(length as nat)),
            name,
        );
    }
    let res = values_of(download::answer_headers(file_name, plan), name);
    assert(res =~= (if name == "content-type"@ {
        seq!["application/octet-stream"@]
    } else {
        Seq::empty()
    }) + (if name == "content-disposition"@ && headers::is_header_value(
        download::disposition(file_name),
    ) {
        seq![download::disposition(file_name)]
    } else {
        Seq::empty()
    }) + (if name == "accept-ranges"@ {
        seq![plan.accept_ranges]
    } else {
        Seq::empty()
    }) + (if name == "content-range"@ {
        at_most_one(plan.content_range)
    } else {
        Seq::empty()
    }) + (if name == "content-length"@ {
        match plan.content_length {
            Some(length) => seq![decimal::decimal(length as nat)],
            None => Seq::empty(),
        }
    } else {
        Seq::empty()
    }));
}

/// An answer of known length says so once, and in decimal digits, whether it is the whole or a
/// part; an answer of unknown length says nothing of it.
pub proof fn answer_announces_its_length(file_name: Seq<char>, plan: PlanView)
    ensures
        plan.content_length matches Some(length) ==> {
            let announced = values_of(
                download::answer_headers(file_name, plan),
                "content-length"@,
            );
            &&& announced == seq![decimal::decimal(length as nat)]
            &&& decimal::is_numeral(announced[0])
            &&& decimal::value(announced[0]) == length
            &&& decimal::parsed(announced[0]) == Some(length)
        },
        plan.content_length is None ==> values_of(
            download::answer_headers(file_name, plan),
            "content-length"@,
        ).len() == 0,
{
    lemma_names_differ();
    lemma_values_of_answer(file_name, plan, "content-length"@);
    if let Some(length) = plan.content_length {
        decimal::decimal_is_numeral(length as nat);
        decimal::value_of_decimal(length as nat);
        decimal::parsed_inverts_decimal(length);
        assert(values_of(download::answer_headers(file_name, plan), "content-length"@)
            =~= seq![decimal::decimal(length as nat)]);
    }
}

/// Whatever is answered, it is a download of bytes that are not interpreted, with the name of
/// the file where a header can hold it, and with what the plan says of ranges.
pub proof fn answer_describes_download(file_name: Seq<char>, plan: PlanView)
    ensures
        values_of(download::answer_headers(file_name, plan), "content-type"@)
            == seq!["application/octet-stream"@],
        values_of(download::answer_headers(file_name, plan), "accept-ranges"@)
            == seq![plan.accept_ranges],
        values_of(download::answer_headers(file_name, plan), "content-range"@) == at_most_one(
            plan.content_range,
        ),
        headers::is_header_value(file_name) ==> values_of(
            download::answer_headers(file_name, plan),
            "content-disposition"@,
        ) == seq![download::disposition(file_name)],
{
    lemma_names_differ();
    lemma_values_of_answer(file_name, plan, "content-type"@);
    lemma_values_of_answer(file_name, plan, "accept-ranges"@);
    lemma_values_of_answer(file_name, plan, "content-range"@);
    lemma_values_of_answer(file_name, plan, "content-disposition"@);
    assert(values_of(download::answer_headers(file_name, plan), "content-type"@)
        =~= seq!["application/octet-stream"@]);
    assert(values_of(download::answer_headers(file_name, plan), "accept-ranges"@)
        =~= seq![plan.accept_ranges]);
    assert(values_of(download::answer_headers(file_name, plan), "content-range"@)
        =~= at_most_one(plan.content_range));
    if headers::is_header_value(file_name) {
        lemma_disposition_fits(file_name);
        assert(values_of(download::answer_headers(file_name, plan), "content-disposition"@)
            =~= seq![download::disposition(file_name)]);
    }
}

proof fn lemma_kept_fits(file_name: Seq<char>)
    requires
        headers::is_header_value(file_name),
    ensures
        headers::is_header_value(file_name.filter(|c: char| c != '"')),
    decreases file_name.len(),
{
    reveal(Seq::filter);
    if file_name.len() > 0 {
        let front = file_name.drop_last();
        let last = file_name[file_name.len() - 1];
        assert((last >= ' ' && last != '\u{7f}') || last == '\t');
        assert forall|i: int| 0 <= i < front.len() implies (#[trigger] front[i] >= ' ' && front[i]
            != '\u{7f}') || front[i] == '\t' by {
            assert(front[i] == file_name[i]);
        }
        lemma_kept_fits(front);
    }
}

proof fn lemma_disposition_fits(file_name: Seq<char>)
    requires
        headers::is_header_value(file_name),
    ensures
        headers::is_header_value(download::disposition(file_name)),
{
    reveal_strlit("attachment; filename=\"");
    reveal_strlit("\"");
    lemma_kept_fits(file_name);
    let kept = file_name.filter(|c: char| c != '"');
    let head = "attachment; filename=\""@;
    let all = download::disposition(file_name);
    assert forall|i: int| 0 <= i < all.len() implies (#[trigger] all[i] >= ' ' && all[i]
        != '\u{7f}') || all[i] == '\t' by {
        if i < head.len() {
            assert(all[i] == head[i]);
        } else if i < head.len() + kept.len() {
            assert(all[i] == kept[i - head.len()]);
        } else {
            assert(all[i] == '"');
        }
    }
}

/// A name without quotes is handed on as it is, behind `attachment; filename=` and in quotes.
pub proof fn file_name_is_handed_on(file_name: Seq<char>)
    requires
        !file_name.contains('"'),
    ensures
        download::disposition(file_name) == "attachment; filename=\""@ + file_name + "\""@,
{
    lemma_nothing_is_filtered(file_name);
}

proof fn lemma_nothing_is_filtered(file_name: Seq<char>)
    requires
        !file_name.contains('"'),
    ensures
        file_name.filter(|c: char| c != '"') == file_name,
    decreases file_name.len(),
{
    reveal(Seq::filter);
    if file_name.len() > 0 {
        let front = file_name.drop_last();
        assert(file_name[file_name.len() - 1] != '"');
        assert(!front.contains('"')) by {
            if front.contains('"') {
                let i = choose|i: int| 0 <= i < front.len() && front[i] == '"';
                assert(file_name[i] == '"');
            }
        }
        lemma_nothing_is_filtered(front);
        assert(front.push(file_name.last()) =~= file_name);
    }
}

/// A file that is asked for without a range is answered as a whole: with success, with its
/// length, and with the offer of ranges.
pub proof fn file_is_answered_whole(content: ContentSource, total: u64, file_name: Seq<char>)
    requires
        content.kind == (ContentKind::File { size: total }),
    ensures
        download::plan_for(content, None) matches Some(plan) && plan.status == 200 && plan.range
            is None && plan.content_range is None && plan.content_length == Some(total)
            && plan.accept_ranges == "bytes"@,
        values_of(
            download::answer_headers(file_name, download::plan_for(content, None)->Some_0),
            "content-length"@,
        ) == seq![decimal::decimal(total as nat)],
        values_of(
            download::answer_headers(file_name, download::plan_for(content, None)->Some_0),
            "content-range"@,
        ).len() == 0,
{
    lemma_names_differ();
    let plan = download::plan_for(content, None)->Some_0;
    lemma_values_of_answer(file_name, plan, "content-length"@);
    lemma_values_of_answer(file_name, plan, "content-range"@);
    assert(values_of(download::answer_headers(file_name, plan), "content-length"@)
        =~= seq![decimal::decimal(total as nat)]);
}

/// The bytes from `start` to `end` of a file are answered as a part: with the status for one,
/// with their number, with their place in the file, and with just these bytes.
pub proof fn part_is_answered_as_asked(
    content: ContentSource,
    total: u64,
    start: u64,
    end: u64,
    file_name: Seq<char>,
)
    requires
        content.kind == (ContentKind::File { size: total }),
        start <= end < total,
    ensures
        ({
            let header = "bytes="@ + decimal::decimal(start as nat) + "-"@ + decimal::decimal(
                end as nat,
            );
            let plan = download::plan_for(content, Some(header))->Some_0;
            let sent = download::answer_headers(file_name, plan);
            &&& download::plan_for(content, Some(header)) is Some
            &&& plan.status == 206
            &&& plan.range == Some(RequestedRange { start, end })
            &&& plan.accept_ranges == "bytes"@
            &&& values_of(sent, "content-length"@) == seq![
                decimal::decimal((end - start + 1) as nat),
            ]
            &&& values_of(sent, "content-range"@) == seq![
                "bytes "@ + decimal::decimal(start as nat) + "-"@ + decimal::decimal(end as nat)
                    + "/"@ + decimal::decimal(total as nat),
            ]
        }),
{
    lemma_names_differ();
    range::range_in_file_is_granted(start, end, total);
    let header = "bytes="@ + decimal::decimal(start as nat) + "-"@ + decimal::decimal(end as nat);
    assert(header == range::range_header(start, end));
    let plan = download::plan_for(content, Some(header))->Some_0;
    lemma_values_of_answer(file_name, plan, "content-length"@);
    lemma_values_of_answer(file_name, plan, "content-range"@);
    assert(values_of(download::answer_headers(file_name, plan), "content-length"@)
        =~= seq![decimal::decimal((end - start + 1) as nat)]);
    assert(values_of(download::answer_headers(file_name, plan), "content-range"@) =~= seq![
        "bytes "@ + decimal::decimal(start as nat) + "-"@ + decimal::decimal(end as nat) + "/"@
            + decimal::decimal(total as nat),
    ]);
}

/// An archive is answered with success and without a length, whatever range is asked for.
pub proof fn archive_has_no_length(
    content: ContentSource,
    range_header: Option<Seq<char>>,
    file_name: Seq<char>,
)
    requires
        content.kind is DirectoryZip,
    ensures
        download::plan_for(content, range_header) matches Some(plan) && plan.status == 200
            && plan.range is None && plan.accept_ranges == "none"@,
        values_of(
            download::answer_headers(file_name, download::plan_for(content, range_header)->Some_0),
            "content-length"@,
        ).len() == 0,
{
    let plan = download::plan_for(content, range_header)->Some_0;
    lemma_names_differ();
    lemma_values_of_answer(file_name, plan, "content-length"@);
}

/// A header that asks for no range of the file is not answered with the content: the refusal
/// tells how long the file is.
pub proof fn bad_range_is_refused_with_the_length(
    session: SharedSession,
    pin: Option<Seq<char>>,
    header: Seq<char>,
    total: u64,
    now: Timestamp,
)
    requires
        session.content.kind == (ContentKind::File { size: total }),
        range::range_of_header(header, total) is None,
        session.download_refusal(session.token@, pin, now) is None,
    ensures
        session.admission_refusal(session.token@, pin, Some(header), now) == Some(
            DownloadRefusal::Range(UnsatisfiableRange { total }),
        ),
{
}

/// Headers of another unit, of several ranges, or without a range at all ask for none.
pub proof fn odd_ranges_are_refused(header: Seq<char>, total: u64)
    requires
        !text::starts_with(header, "bytes="@) || header.contains(',') || !header.contains('-'),
    ensures
        range::range_of_header(header, total) is None,
{
    reveal_strlit("bytes=");
    if text::starts_with(header, "bytes="@) {
        let bounds = header.skip(6);
        if header.contains(',') {
            let i = choose|i: int| 0 <= i < header.len() && header[i] == ',';
            if i < 6 {
                assert(header.subrange(0, 6)[i] == "bytes="@[i]);
            }
            assert(bounds[i - 6] == ',');
        } else {
            bounds.index_of_first_ensures('-');
            if bounds.contains('-') {
                let i = choose|i: int| 0 <= i < bounds.len() && bounds[i] == '-';
                assert(header[i + 6] == '-');
            }
        }
    }
}

/// A range that ends before it begins is none.
pub proof fn backward_range_is_refused(start: u64, end: u64, total: u64)
    requires
        end < start,
    ensures
        range::range_of_header(range::range_header(start, end), total) is None,
{
    if total > 0 {
        decimal::parsed_inverts_decimal(start);
        decimal::parsed_inverts_decimal(end);
        decimal::decimal_is_numeral(start as nat);
        decimal::decimal_is_numeral(end as nat);
        range::lemma_split_header(
            decimal::decimal(start as nat),
            decimal::decimal(end as nat),
            total,
        );
    }
}

/// A range that begins in the file and ends behind it is granted up to the end of the file.
pub proof fn range_over_the_end_is_cut(start: u64, end: u64, total: u64)
    requires
        start < total <= end,
    ensures
        range::range_of_header(range::range_header(start, end), total) == Some(
            RequestedRange { start, end: (total - 1) as u64 },
        ),
{
    decimal::parsed_inverts_decimal(start);
    decimal::parsed_inverts_decimal(end);
    decimal::decimal_is_numeral(start as nat);
    decimal::decimal_is_numeral(end as nat);
    range::lemma_split_header(decimal::decimal(start as nat), decimal::decimal(end as nat), total);
}

/// The supplied PIN is the one that was asked for, by its digest.
pub open spec fn has_the_pin(session: SharedSession, pin: Option<Seq<char>>) -> bool {
    session.access.pin_hash matches Some(hash) ==> pin matches Some(supplied)
        && access::hex_text(access::sha256(vstd::utf8::encode_utf8(supplied))) == hash@
}

/// Whoever has the token and the PIN, comes in time and before the content was burnt, and does
/// not come while it is being burnt, gets the content, as long as it is asked for as a whole.
pub proof fn right_visitor_is_admitted(
    session: SharedSession,
    pin: Option<Seq<char>>,
    now: Timestamp,
)
    requires
        now.nanos < session.access.expires_at.nanos,
        has_the_pin(session, pin),
        !session.state.consumed,
        !session.access.once || !session.state.active_download,
    ensures
        session.page_refusal(session.token@, now) is None,
        session.download_refusal(session.token@, pin, now) is None,
        session.admission_refusal(session.token@, pin, None, now) is None,
        download::plan_for(session.content, None) is Some,
{
}

/// Who is turned away is told why: the token is looked at first, then the time, then the PIN,
/// then whether the content was burnt, and at last whether it is being burnt.
pub proof fn each_refusal_has_its_reason(
    session: SharedSession,
    token: Seq<char>,
    pin: Option<Seq<char>>,
    now: Timestamp,
)
    ensures
        ({
            let refusal = session.admission_refusal(token, pin, None, now);
            let in_time = now.nanos < session.access.expires_at.nanos;
            let known = token == session.token@;
            &&& refusal == Some(DownloadRefusal::Session(SessionRejection::InvalidToken))
                <==> !known
            &&& refusal == Some(DownloadRefusal::Session(SessionRejection::Expired)) <==> known
                && !in_time
            &&& refusal == Some(DownloadRefusal::Session(SessionRejection::PinRequired)) <==> known
                && in_time && session.access.pin_hash is Some && pin is None
            &&& refusal == Some(DownloadRefusal::Session(SessionRejection::InvalidPin)) <==> known
                && in_time && pin is Some && !has_the_pin(session, pin)
            &&& refusal == Some(DownloadRefusal::Session(SessionRejection::AlreadyConsumed))
                <==> known && in_time && has_the_pin(session, pin) && session.state.consumed
            &&& refusal == Some(DownloadRefusal::Session(SessionRejection::Busy)) <==> known
                && in_time && has_the_pin(session, pin) && !session.state.consumed
                && session.access.once && session.state.active_download
        }),
{
}

/// A refusal is answered with the HTTP status for it: not found, gone, unauthorized, conflict,
/// or a range that cannot be satisfied.
pub proof fn refusals_have_their_status(refusal: DownloadRefusal, status: u16)
    requires
        call_ensures(DownloadRefusal::status, (&refusal,), status),
    ensures
        status == match refusal {
            DownloadRefusal::Range(_) => 416u16,
            DownloadRefusal::Session(rejection) => if rejection
                == SessionRejection::InvalidToken {
                404
            } else if rejection == SessionRejection::Expired || rejection
                == SessionRejection::AlreadyConsumed {
                410
            } else if rejection == SessionRejection::Busy {
                409
            } else {
                401
            },
        },
{
}

/// What a refusal says.
pub proof fn refusals_say_why(rejection: SessionRejection, message: &'static str, status: u16)
    requires
        call_ensures(SessionRejection::message, (&rejection,), message),
        call_ensures(SessionRejection::status, (&rejection,), status),
    ensures
        rejection == SessionRejection::InvalidToken ==> message@ == "Beam session not found"@
            && status == 404,
        rejection == SessionRejection::Expired ==> message@ == "This Beam session has expired"@
            && status == 410,
        rejection == SessionRejection::PinRequired ==> message@ == "PIN required"@ && status == 401,
        rejection == SessionRejection::InvalidPin ==> message@ == "Invalid PIN"@ && status == 401,
        rejection == SessionRejection::Busy ==> message@
            == "Another burn-after-reading download is already in progress"@ && status == 409,
        rejection == SessionRejection::AlreadyConsumed ==> message@
            == "This Beam session was already consumed"@ && status == 410,
{
}

/// A range that cannot be satisfied is answered with the length of the file.
pub proof fn unsatisfiable_range_tells_the_length(
    refusal: DownloadRefusal,
    content_range: Option<String>,
)
    requires
        call_ensures(DownloadRefusal::content_range, (&refusal,), content_range),
    ensures
        content_range is Some <==> refusal is Range,
        refusal matches DownloadRefusal::Range(range) ==> content_range->Some_0@ == "bytes */"@
            + decimal::decimal(range.total as nat),
{
}

/// What is seen of a session is the session: its own names, links, rules and counters, and the
/// warnings of its content before its own.
pub proof fn snapshot_shows_the_session(
    session: SharedSession,
    now: Timestamp,
    seen: SessionSnapshot,
)
    requires
        call_ensures(SharedSession::snapshot_at, (&session, now), seen),
    ensures
        seen.display_name@ == session.content.display_name@,
        seen.download_name@ == session.content.download_name@,
        seen.token@ == session.token@,
        seen.primary_link@ == session.state.primary_link@,
        text::optional(seen.secondary_link) == text::optional(session.state.secondary_link),
        text::optional(seen.revealed_pin) == text::optional(session.revealed_pin),
        seen.requires_pin <==> session.access.pin_hash is Some,
        seen.once == session.access.once,
        seen.mode == session.state.mode,
        seen.provider_status@ == session.state.provider_status@,
        seen.completed_downloads == session.state.completed_downloads,
        seen.bytes_served == session.state.bytes_served,
        seen.active_download == session.state.active_download,
        seen.consumed == session.state.consumed,
        seen.expires_at == session.access.expires_at,
        seen.input_size == session.content.input_size,
        session.content.kind matches ContentKind::File { size } ==> seen.content_length == Some(
            size,
        ) && seen.content_kind@ == "file"@,
        session.content.kind is DirectoryZip ==> seen.content_length is None
            && seen.content_kind@ == "zip archive"@,
        text::views(seen.warnings@) == text::views(session.content.warnings@) + text::views(
            session.state.warnings@,
        ),
        seen.remaining.total() == 0 <==> session.access.expires_at.nanos <= now.nanos,
        now.nanos < session.access.expires_at.nanos && session.access.expires_at.nanos - now.nanos
            <= u64::MAX ==> seen.remaining.total() == session.access.expires_at.nanos - now.nanos,
{
    assert(seen@ == session.seen_at(now));
    let view = seen@;
    duration::time_left_reaches_deadline(session.access.expires_at, now);
}

/// How a mode is shown: the links of the local network have two names, a public link one.
pub proof fn modes_are_shown_apart(session: SharedSession, now: Timestamp, seen: SessionSnapshot)
    requires
        call_ensures(SharedSession::snapshot_at, (&session, now), seen),
    ensures
        session.state.mode is Local ==> seen.primary_link_label@ == "Primary (No Warnings)"@
            && text::optional_str(seen.secondary_link_label) == Some("Secondary (Encrypted)"@)
            && seen.transport_label@ == "HTTP primary + HTTPS optional"@,
        session.state.mode is Global ==> seen.primary_link_label@ == "Public HTTPS"@
            && seen.secondary_link_label is None,
        session.state.mode matches ResolvedSendMode::Global { provider } ==> text::starts_with(
            seen.transport_label@,
            "HTTPS "@,
        ),
{
    let view = seen@;
    assert(view == session.seen_at(now));
    reveal_strlit("HTTPS ");
    reveal_strlit("HTTPS tunnel");
    reveal_strlit("HTTPS tunnel via cloudflared");
    reveal_strlit("HTTPS tunnel via Pinggy SSH");
    reveal_strlit("HTTPS relay via native client");
    if session.state.mode is Global {
        assert(seen.transport_label@.subrange(0, 6) =~= "HTTPS "@);
    }
}

} // verus!
