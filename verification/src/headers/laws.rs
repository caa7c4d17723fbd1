//! What becomes of headers on their way through a relay.
use vstd::prelude::*;

use axum::http::{HeaderMap, HeaderValue};

use crate::content::ContentSource;
use crate::decimal;
use crate::headers;
use crate::headers::HeaderRule;
use crate::relay_protocol;
use crate::relay_protocol::HeaderPair;
use crate::session::download;
use crate::session::download::PlanView;
use crate::session::range;
use crate::text;

verus! {

/// The headers that belong to one connection: those of the connection itself and of a change to
/// another protocol.
pub open spec fn belongs_to_connection(name: Seq<char>) -> bool {
    ||| seq![
        "connection"@,
        "host"@,
        "keep-alive"@,
        "te"@,
        "trailer"@,
        "transfer-encoding"@,
        "upgrade"@,
    ].contains(name)
    ||| seq!["proxy-authenticate"@, "proxy-authorization"@].contains(name)
    ||| seq![
        "sec-websocket-key"@,
        "sec-websocket-version"@,
        "sec-websocket-extensions"@,
        "sec-websocket-accept"@,
        "sec-websocket-protocol"@,
    ].contains(name)
}

/// A relay holds back the headers that belong to one connection and no others, in either
/// direction.
pub proof fn only_connection_headers_are_held_back(name: Seq<char>, rule: HeaderRule)
    ensures
        rule.passes(name) <==> !belongs_to_connection(name),
{
    let own = seq![
        "connection"@,
        "host"@,
        "keep-alive"@,
        "te"@,
        "trailer"@,
        "transfer-encoding"@,
        "upgrade"@,
    ];
    let proxy = seq!["proxy-authenticate"@, "proxy-authorization"@];
    let socket = seq![
        "sec-websocket-key"@,
        "sec-websocket-version"@,
        "sec-websocket-extensions"@,
        "sec-websocket-accept"@,
        "sec-websocket-protocol"@,
    ];
    assert(own[0] == "connection"@ && own[1] == "host"@ && own[2] == "keep-alive"@ && own[3]
        == "te"@ && own[4] == "trailer"@ && own[5] == "transfer-encoding"@ && own[6]
        == "upgrade"@);
    assert(proxy[0] == "proxy-authenticate"@ && proxy[1] == "proxy-authorization"@);
    assert(socket[0] == "sec-websocket-key"@ && socket[1] == "sec-websocket-version"@ && socket[2]
        == "sec-websocket-extensions"@ && socket[3] == "sec-websocket-accept"@ && socket[4]
        == "sec-websocket-protocol"@);
}

/// Every header that describes a content, what of it is asked for, or what of it can be had,
/// passes a relay.
pub proof fn content_headers_pass(name: Seq<char>, rule: HeaderRule)
    requires
        text::starts_with(name, "content-"@) || text::starts_with(name, "accept"@) || name
            == "range"@,
    ensures
        rule.passes(name),
{
    reveal_strlit("content-");
    reveal_strlit("accept");
    reveal_strlit("range");
    reveal_strlit("connection");
    reveal_strlit("host");
    reveal_strlit("keep-alive");
    reveal_strlit("proxy-authenticate");
    reveal_strlit("proxy-authorization");
    reveal_strlit("te");
    reveal_strlit("trailer");
    reveal_strlit("transfer-encoding");
    reveal_strlit("upgrade");
    reveal_strlit("sec-websocket-key");
    reveal_strlit("sec-websocket-version");
    reveal_strlit("sec-websocket-extensions");
    reveal_strlit("sec-websocket-accept");
    reveal_strlit("sec-websocket-protocol");
    if text::starts_with(name, "content-"@) {
        let front = name.subrange(0, 8);
        assert(front[0] == 'c' && front[3] == 't');
        assert(name[0] == 'c' && name[3] == 't');
    } else if text::starts_with(name, "accept"@) {
        let front = name.subrange(0, 6);
        assert(front[0] == 'a');
        assert(name[0] == 'a');
    }
}

/// Of the headers of a map, a relay passes on exactly those whose value is a text and that do
/// not belong to one connection, each under its name and with its text.
pub proof fn other_headers_are_passed_on(
    entries: Seq<(Seq<char>, Seq<u8>)>,
    rule: HeaderRule,
    name: Seq<char>,
    value: Seq<char>,
)
    ensures
        headers::passed_on(entries, rule).contains((name, value)) <==> !belongs_to_connection(name)
            && exists|i: int|
            0 <= i < entries.len() && (#[trigger] entries[i]).0 == name && headers::visible_text(
                entries[i].1,
            ) == Some(value),
    decreases entries.len(),
{
    only_connection_headers_are_held_back(name, rule);
    let all = headers::passed_on(entries, rule);
    if entries.len() > 0 {
        let front = entries.drop_last();
        let before = headers::passed_on(front, rule);
        let last = entries.len() - 1;
        other_headers_are_passed_on(front, rule, name, value);
        only_connection_headers_are_held_back(entries[last].0, rule);
        if before.contains((name, value)) {
            let k = choose|k: int| 0 <= k < before.len() && before[k] == (name, value);
            assert(all[k] == (name, value));
            let i = choose|i: int|
                0 <= i < front.len() && (#[trigger] front[i]).0 == name && headers::visible_text(
                    front[i].1,
                ) == Some(value);
            assert(entries[i] == front[i]);
        }
        if !belongs_to_connection(name) && entries[last].0 == name && headers::visible_text(
            entries[last].1,
        ) == Some(value) {
            assert(all[before.len() as int] == (name, value));
        }
        if all.contains((name, value)) {
            let k = choose|k: int| 0 <= k < all.len() && all[k] == (name, value);
            if k < before.len() {
                assert(before[k] == (name, value));
            } else {
                assert(entries[last].0 == name);
            }
        }
        if exists|i: int|
            0 <= i < entries.len() && (#[trigger] entries[i]).0 == name && headers::visible_text(
                entries[i].1,
            ) == Some(value) {
            let i = choose|i: int|
                0 <= i < entries.len() && (#[trigger] entries[i]).0 == name
                    && headers::visible_text(entries[i].1) == Some(value);
            if i < last {
                assert(front[i] == entries[i]);
            }
        }
    }
}

/// A header is found under its name: the first of that name counts.
pub proof fn first_header_of_a_name_counts(
    before: Seq<(Seq<char>, Seq<u8>)>,
    name: Seq<char>,
    value: Seq<u8>,
    behind: Seq<(Seq<char>, Seq<u8>)>,
)
    requires
        forall|i: int| 0 <= i < before.len() ==> (#[trigger] before[i]).0 != name,
    ensures
        headers::first_text(before + seq![(name, value)] + behind, name) == headers::visible_text(
            value,
        ),
        headers::first_text(before, name) is None,
    decreases before.len(),
{
    let all = before + seq![(name, value)] + behind;
    if before.len() > 0 {
        let rest = before.skip(1);
        assert forall|i: int| 0 <= i < rest.len() implies (#[trigger] rest[i]).0 != name by {
            assert(rest[i] == before[i + 1]);
        }
        assert(before[0].0 != name);
        first_header_of_a_name_counts(rest, name, value, behind);
        assert(all.skip(1) =~= rest + seq![(name, value)] + behind);
        assert(all[0] == before[0]);
    } else {
        assert(all[0] == (name, value));
    }
}

/// A header is put behind those of its name and in front of none of them, and nothing else
/// moves.
pub proof fn headers_of_a_name_stay_in_order(
    entries: Seq<(Seq<char>, Seq<u8>)>,
    name: Seq<char>,
    value: Seq<u8>,
) -> (at: int)
    ensures
        0 <= at <= entries.len(),
        headers::appended(entries, name, value) == entries.insert(at, (name, value)),
        forall|i: int| at <= i < entries.len() ==> (#[trigger] entries[i]).0 != name,
        at < entries.len() ==> at > 0 && entries[at - 1].0 == name,
    decreases entries.len(),
{
    if entries.len() == 0 || entries.last().0 == name || !headers::has_name(entries, name) {
        assert(entries.insert(entries.len() as int, (name, value)) =~= entries.push((name, value)));
        entries.len() as int
    } else {
        let front = entries.drop_last();
        let k = choose|k: int| 0 <= k < entries.len() && (#[trigger] entries[k]).0 == name;
        assert(front[k].0 == name);
        let at = headers_of_a_name_stay_in_order(front, name, value);
        assert(entries.insert(at, (name, value)) =~= front.insert(at, (name, value)).push(
            entries.last(),
        ));
        assert forall|i: int| at <= i < entries.len() implies (#[trigger] entries[i]).0
            != name by {
            if i < front.len() {
                assert(front[i] == entries[i]);
            }
        }
        if at < front.len() {
            assert(entries[at - 1] == front[at - 1]);
        } else {
            assert(entries[k] == front[k]);
            assert(front[at - 1].0 == name) by {
                lemma_last_of_name(front, name, value, at);
            }
        }
        at
    }
}

proof fn lemma_last_of_name(
    front: Seq<(Seq<char>, Seq<u8>)>,
    name: Seq<char>,
    value: Seq<u8>,
    at: int,
)
    requires
        headers::has_name(front, name),
        at == front.len(),
        headers::appended(front, name, value) == front.insert(at, (name, value)),
    ensures
        at > 0,
        front[at - 1].0 == name,
{
    if front.last().0 != name {
        let all = headers::appended(front, name, value);
        assert(all.last() == front.last());
        assert(front.insert(at, (name, value)).last() == (name, value));
    }
}

/// Every pair with a valid name and value is a header of the map that is made of the pairs, and
/// the map has no others.
pub proof fn maps_hold_the_valid_pairs(
    pairs: Seq<(Seq<char>, Seq<char>)>,
    name: Seq<char>,
    value: Seq<u8>,
)
    ensures
        headers::filled(pairs).contains((name, value)) <==> exists|i: int|
            0 <= i < pairs.len() && headers::is_header_name((#[trigger] pairs[i]).0)
                && headers::is_header_value(pairs[i].1) && headers::normal_name(pairs[i].0) == name
                && vstd::utf8::encode_utf8(pairs[i].1) == value,
    decreases pairs.len(),
{
    if pairs.len() > 0 {
        let front = pairs.drop_last();
        let last = pairs.len() - 1;
        let before = headers::filled(front);
        let all = headers::filled(pairs);
        maps_hold_the_valid_pairs(front, name, value);
        assert forall|i: int| 0 <= i < front.len() implies #[trigger] pairs[i] == front[i] by {}
        if headers::is_header_name(pairs[last].0) && headers::is_header_value(pairs[last].1) {
            let own_name = headers::normal_name(pairs[last].0);
            let own_value = vstd::utf8::encode_utf8(pairs[last].1);
            let at = headers_of_a_name_stay_in_order(before, own_name, own_value);
            assert(all == before.insert(at, (own_name, own_value)));
            assert(all[at] == (own_name, own_value));
            if before.contains((name, value)) {
                let k = choose|k: int| 0 <= k < before.len() && before[k] == (name, value);
                assert(all[if k < at {
                    k
                } else {
                    k + 1
                }] == (name, value));
            }
            if all.contains((name, value)) {
                let k = choose|k: int| 0 <= k < all.len() && all[k] == (name, value);
                if k != at {
                    assert(before[if k < at {
                        k
                    } else {
                        k - 1
                    }] == (name, value));
                } else {
                    assert(headers::normal_name(pairs[last].0) == name);
                }
            }
        }
        if exists|i: int|
            0 <= i < pairs.len() && headers::is_header_name((#[trigger] pairs[i]).0)
                && headers::is_header_value(pairs[i].1) && headers::normal_name(pairs[i].0) == name
                && vstd::utf8::encode_utf8(pairs[i].1) == value {
            let i = choose|i: int|
                0 <= i < pairs.len() && headers::is_header_name((#[trigger] pairs[i]).0)
                    && headers::is_header_value(pairs[i].1) && headers::normal_name(pairs[i].0)
                    == name && vstd::utf8::encode_utf8(pairs[i].1) == value;
            if i < last {
                assert(front[i] == pairs[i]);
            }
        }
        if before.contains((name, value)) {
            let i = choose|i: int|
                0 <= i < front.len() && headers::is_header_name((#[trigger] front[i]).0)
                    && headers::is_header_value(front[i].1) && headers::normal_name(front[i].0)
                    == name && vstd::utf8::encode_utf8(front[i].1) == value;
            assert(pairs[i] == front[i]);
        }
    }
}

proof fn lemma_numeral_is_plain(n: nat)
    ensures
        headers::is_plain(decimal::decimal(n)),
{
    decimal::decimal_is_numeral(n);
    let digits = decimal::decimal(n);
    assert forall|i: int| 0 <= i < digits.len() implies (' ' <= #[trigger] digits[i] <= '~')
        || digits[i] == '\t' by {
        assert(decimal::is_digit(digits[i]));
    }
}

proof fn lemma_plain_adds(a: Seq<char>, b: Seq<char>)
    requires
        headers::is_plain(a),
        headers::is_plain(b),
    ensures
        headers::is_plain(a + b),
{
    let all = a + b;
    assert forall|i: int| 0 <= i < all.len() implies (' ' <= #[trigger] all[i] <= '~') || all[i]
        == '\t' by {
        if i < a.len() {
            assert(all[i] == a[i]);
        } else {
            assert(all[i] == b[i - a.len()]);
        }
    }
}

proof fn lemma_filtered_is_plain(name: Seq<char>)
    requires
        headers::is_plain(name),
    ensures
        headers::is_plain(name.filter(|c: char| c != '"')),
    decreases name.len(),
{
    reveal(Seq::filter);
    if name.len() > 0 {
        let front = name.drop_last();
        assert forall|i: int| 0 <= i < front.len() implies (' ' <= #[trigger] front[i] <= '~')
            || front[i] == '\t' by {
            assert(front[i] == name[i]);
        }
        lemma_filtered_is_plain(front);
        assert((' ' <= name[name.len() - 1] <= '~') || name[name.len() - 1] == '\t');
    }
}

proof fn lemma_disposition_is_plain(file_name: Seq<char>)
    requires
        headers::is_plain(file_name),
    ensures
        headers::is_plain(download::disposition(file_name)),
{
    reveal_strlit("attachment; filename=\"");
    reveal_strlit("\"");
    let kept = file_name.filter(|c: char| c != '"');
    lemma_filtered_is_plain(file_name);
    lemma_plain_adds("attachment; filename=\""@, kept);
    lemma_plain_adds("attachment; filename=\""@ + kept, "\""@);
}

proof fn lemma_range_is_plain(start: nat, end: nat, total: nat)
    ensures
        headers::is_plain(range::content_range_text(start, end, total)),
{
    reveal_strlit("bytes ");
    reveal_strlit("-");
    reveal_strlit("/");
    lemma_numeral_is_plain(start);
    lemma_numeral_is_plain(end);
    lemma_numeral_is_plain(total);
    let a = "bytes "@ + decimal::decimal(start);
    lemma_plain_adds("bytes "@, decimal::decimal(start));
    lemma_plain_adds(a, "-"@);
    lemma_plain_adds(a + "-"@, decimal::decimal(end));
    lemma_plain_adds(a + "-"@ + decimal::decimal(end), "/"@);
    lemma_plain_adds(a + "-"@ + decimal::decimal(end) + "/"@, decimal::decimal(total));
}

/// The headers of an answer with their names in lower case, all of them different, and values of
/// visible ASCII.
spec fn are_plain(pairs: Seq<(Seq<char>, Seq<char>)>) -> bool {
    &&& forall|i: int|
        0 <= i < pairs.len() ==> headers::is_normal((#[trigger] pairs[i]).0) && headers::is_plain(
            pairs[i].1,
        ) && HeaderRule::Response.passes(pairs[i].0) && HeaderRule::Request.passes(pairs[i].0)
    &&& forall|i: int, j: int| 0 <= i < j < pairs.len() ==> pairs[i].0 != pairs[j].0
}

proof fn lemma_one_more(
    pairs: Seq<(Seq<char>, Seq<char>)>,
    name: Seq<char>,
    value: Seq<char>,
)
    requires
        are_plain(pairs),
        headers::is_normal(name),
        headers::is_plain(value),
        HeaderRule::Response.passes(name),
        HeaderRule::Request.passes(name),
        forall|i: int| 0 <= i < pairs.len() ==> (#[trigger] pairs[i]).0 != name,
    ensures
        are_plain(pairs.push((name, value))),
{
    let all = pairs.push((name, value));
    assert forall|i: int| 0 <= i < all.len() implies headers::is_normal((#[trigger] all[i]).0)
        && headers::is_plain(all[i].1) && HeaderRule::Response.passes(all[i].0)
        && HeaderRule::Request.passes(all[i].0) by {
        if i < pairs.len() {
            assert(all[i] == pairs[i]);
        }
    }
}

proof fn lemma_answer_is_plain(
    file_name: Seq<char>,
    content: ContentSource,
    range_header: Option<Seq<char>>,
    plan: PlanView,
)
    requires
        headers::is_plain(file_name),
        download::plan_for(content, range_header) == Some(plan),
    ensures
        are_plain(download::answer_headers(file_name, plan)),
{
    reveal_strlit("content-");
    reveal_strlit("accept");
    reveal_strlit("content-type");
    reveal_strlit("application/octet-stream");
    reveal_strlit("content-disposition");
    reveal_strlit("accept-ranges");
    reveal_strlit("content-range");
    reveal_strlit("content-length");
    reveal_strlit("bytes");
    reveal_strlit("none");
    assert("content-type"@.subrange(0, 8) =~= "content-"@);
    assert("content-disposition"@.subrange(0, 8) =~= "content-"@);
    assert("content-range"@.subrange(0, 8) =~= "content-"@);
    assert("content-length"@.subrange(0, 8) =~= "content-"@);
    assert("accept-ranges"@.subrange(0, 6) =~= "accept"@);
    content_headers_pass("content-type"@, HeaderRule::Response);
    content_headers_pass("content-type"@, HeaderRule::Request);
    content_headers_pass("content-disposition"@, HeaderRule::Response);
    content_headers_pass("content-disposition"@, HeaderRule::Request);
    content_headers_pass("accept-ranges"@, HeaderRule::Response);
    content_headers_pass("accept-ranges"@, HeaderRule::Request);
    content_headers_pass("content-range"@, HeaderRule::Response);
    content_headers_pass("content-range"@, HeaderRule::Request);
    content_headers_pass("content-length"@, HeaderRule::Response);
    content_headers_pass("content-length"@, HeaderRule::Request);
    lemma_disposition_is_plain(file_name);
    headers::lemma_plain_value(download::disposition(file_name));
    if let Some(part) = plan.range {
        lemma_range_is_plain(
            part.start as nat,
            part.end as nat,
            content.length()->Some_0 as nat,
        );
    }
    let typed = seq![("content-type"@, "application/octet-stream"@)];
    assert(are_plain(typed));
    let named = typed.push(("content-disposition"@, download::disposition(file_name)));
    assert("content-type"@[8] != "content-disposition"@[8]);
    lemma_one_more(typed, "content-disposition"@, download::disposition(file_name));
    let ranged = named.push(("accept-ranges"@, plan.accept_ranges));
    assert("accept-ranges"@[0] != "content-type"@[0]);
    assert("accept-ranges"@[0] != "content-disposition"@[0]);
    lemma_one_more(named, "accept-ranges"@, plan.accept_ranges);
    assert("content-range"@[8] != "content-type"@[8]);
    assert("content-range"@[8] != "content-disposition"@[8]);
    assert("content-range"@[0] != "accept-ranges"@[0]);
    assert("content-length"@[8] != "content-type"@[8]);
    assert("content-length"@[8] != "content-disposition"@[8]);
    assert("content-length"@[0] != "accept-ranges"@[0]);
    assert("content-length"@[8] != "content-range"@[8]);
    let placed = match plan.content_range {
        Some(content_range) => {
            lemma_one_more(ranged, "content-range"@, content_range);
            ranged.push(("content-range"@, content_range))
        },
        None => ranged,
    };
    if let Some(length) = plan.content_length {
        lemma_numeral_is_plain(length as nat);
        lemma_one_more(placed, "content-length"@, decimal::decimal(length as nat));
    }
}

/// The answer to a download keeps all of its headers on the way through a relay, from the local
/// server to the sender's client and from the relay to the visitor: whatever is downloaded,
/// whole or in part, as long as the name of the file is visible ASCII.
pub proof fn answer_passes_relay_unchanged(
    file_name: Seq<char>,
    content: ContentSource,
    range_header: Option<Seq<char>>,
    plan: PlanView,
)
    requires
        headers::is_plain(file_name),
        download::plan_for(content, range_header) == Some(plan),
    ensures
        ({
            let sent = download::answer_headers(file_name, plan);
            let passed = headers::passed_on(headers::filled(sent), HeaderRule::Response);
            &&& passed == sent
            &&& headers::filled(passed) == headers::filled(sent)
        }),
{
    lemma_answer_is_plain(file_name, content, range_header, plan);
    headers::headers_survive(download::answer_headers(file_name, plan), HeaderRule::Response);
}

/// The headers that belong to one connection are told apart from all others by their names, for
/// requests and for answers alike.
pub proof fn connection_headers_are_told_apart(
    name: &str,
    own: bool,
    asked: bool,
    answered: bool,
)
    requires
        call_ensures(headers::is_hop_by_hop_header, (name,), own),
        call_ensures(headers::relay_request_header_allowed, (name,), asked),
        call_ensures(headers::relay_response_header_allowed, (name,), answered),
    ensures
        own <==> belongs_to_connection(name@),
        asked <==> !belongs_to_connection(name@),
        answered <==> !belongs_to_connection(name@),
        text::starts_with(name@, "content-"@) || text::starts_with(name@, "accept"@) || name@
            == "range"@ ==> !own && asked && answered,
{
    only_connection_headers_are_held_back(name@, HeaderRule::Request);
    if text::starts_with(name@, "content-"@) || text::starts_with(name@, "accept"@) || name@
        == "range"@ {
        content_headers_pass(name@, HeaderRule::Request);
    }
}

/// Of the headers of a request or an answer, those that are texts and do not belong to one
/// connection become pairs, and the others do not.
pub proof fn pairs_are_the_headers(
    map: HeaderMap<HeaderValue>,
    rule: HeaderRule,
    res: Vec<HeaderPair>,
    name: Seq<char>,
    value: Seq<char>,
)
    requires
        call_ensures(headers::headers_to_pairs, (&map, rule), res),
    ensures
        relay_protocol::pair_views(res@).contains((name, value)) <==> !belongs_to_connection(name)
            && exists|i: int|
            0 <= i < headers::header_entries(map).len() && (#[trigger] headers::header_entries(
                map,
            )[i]).0 == name && headers::visible_text(headers::header_entries(map)[i].1) == Some(
                value,
            ),
{
    other_headers_are_passed_on(headers::header_entries(map), rule, name, value);
}

/// Pairs become the headers that they name, whatever is valid among them.
pub proof fn headers_are_the_pairs(
    pairs: Vec<HeaderPair>,
    res: Option<HeaderMap<HeaderValue>>,
    name: Seq<char>,
    value: Seq<u8>,
)
    requires
        call_ensures(headers::pairs_to_headers, (&pairs,), res),
    ensures
        pairs@.len() <= 6_554 ==> res is Some,
        res matches Some(map) ==> (headers::header_entries(map).contains((name, value))
            <==> exists|i: int|
            0 <= i < pairs@.len() && headers::is_header_name(
                (#[trigger] relay_protocol::pair_views(pairs@)[i]).0,
            ) && headers::is_header_value(relay_protocol::pair_views(pairs@)[i].1)
                && headers::normal_name(relay_protocol::pair_views(pairs@)[i].0) == name
                && vstd::utf8::encode_utf8(relay_protocol::pair_views(pairs@)[i].1) == value),
{
    maps_hold_the_valid_pairs(relay_protocol::pair_views(pairs@), name, value);
}

/// A header is read by its name: the first of that name, where it is a text.
pub proof fn header_is_read_by_name(
    map: HeaderMap<HeaderValue>,
    name: &str,
    res: Option<String>,
    before: Seq<(Seq<char>, Seq<u8>)>,
    value: Seq<u8>,
    behind: Seq<(Seq<char>, Seq<u8>)>,
)
    requires
        call_ensures(headers::header_text, (&map, name), res),
        headers::header_entries(map) == before + seq![(name@, value)] + behind,
        forall|i: int| 0 <= i < before.len() ==> (#[trigger] before[i]).0 != name@,
    ensures
        text::optional(res) == headers::visible_text(value),
{
    first_header_of_a_name_counts(before, name@, value, behind);
}

} // verus!
