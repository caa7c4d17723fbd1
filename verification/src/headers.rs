//! HTTP headers: which names and values are valid, and which headers a relay passes on.
pub mod laws;

use vstd::prelude::*;

use axum::http::{HeaderMap, HeaderValue};

use crate::relay_protocol;
use crate::relay_protocol::HeaderPair;
use crate::text;

verus! {

/// Trusted: the header map of the `http` crate, as `axum` hands it out.
#[verifier::external_type_specification]
#[verifier::external_body]
#[verifier::reject_recursive_types(T)]
pub struct ExHeaderMap<T>(HeaderMap<T>);

/// Trusted: the header value of the `http` crate.
#[verifier::external_type_specification]
#[verifier::external_body]
pub struct ExHeaderValue(HeaderValue);

/// The names and values that a header map holds, in the order in which it hands them out.
pub uninterp spec fn header_entries(map: HeaderMap<HeaderValue>) -> Seq<(Seq<char>, Seq<u8>)>;

/// The longest name that a header can have.
pub const MAX_NAME_LEN: usize = 65_535;

/// A header map with fewer entries than this has room for one more.
pub const ROOM: usize = 6_554;

/// `c` can stand in a header name.
pub open spec fn is_name_char(c: char) -> bool {
    ||| 'a' <= c <= 'z'
    ||| 'A' <= c <= 'Z'
    ||| '0' <= c <= '9'
    ||| c == '!'
    ||| '#' <= c <= '\''
    ||| c == '*'
    ||| c == '+'
    ||| c == '-'
    ||| c == '.'
    ||| '^' <= c <= '`'
    ||| c == '|'
    ||| c == '~'
}

/// The lower-case form of an ASCII letter, any other character as it is.
pub open spec fn lower_case(c: char) -> char {
    if 'A' <= c <= 'Z' {
        (c as u32 + 32) as char
    } else {
        c
    }
}

/// `name` can name a header.
pub open spec fn is_header_name(name: Seq<char>) -> bool {
    &&& 0 < name.len() <= MAX_NAME_LEN
    &&& forall|i: int| 0 <= i < name.len() ==> is_name_char(#[trigger] name[i])
}

/// The form in which a header map keeps a name.
pub open spec fn normal_name(name: Seq<char>) -> Seq<char> {
    name.map_values(|c: char| lower_case(c))
}

/// `value` can be the value of a header: no control character but the tab.
pub open spec fn is_header_value(value: Seq<char>) -> bool {
    forall|i: int|
        0 <= i < value.len() ==> (#[trigger] value[i] >= ' ' && value[i] != '\u{7f}') || value[i]
            == '\t'
}

/// `b` is a visible ASCII character, a space or a tab.
pub open spec fn is_visible(b: u8) -> bool {
    32 <= b < 127 || b == 9
}

/// The text of a header value; none where a byte is not visible ASCII.
pub open spec fn visible_text(bytes: Seq<u8>) -> Option<Seq<char>> {
    if forall|i: int| 0 <= i < bytes.len() ==> is_visible(#[trigger] bytes[i]) {
        Some(bytes.map_values(|b: u8| b as char))
    } else {
        None
    }
}

/// The entries with one more behind the last one of the same name, or at the end where the
/// name is new.
pub open spec fn appended(
    entries: Seq<(Seq<char>, Seq<u8>)>,
    name: Seq<char>,
    value: Seq<u8>,
) -> Seq<(Seq<char>, Seq<u8>)>
    decreases entries.len(),
{
    if entries.len() == 0 || entries.last().0 == name || !has_name(entries, name) {
        entries.push((name, value))
    } else {
        appended(entries.drop_last(), name, value).push(entries.last())
    }
}

/// An entry has the name.
pub open spec fn has_name(entries: Seq<(Seq<char>, Seq<u8>)>, name: Seq<char>) -> bool {
    exists|i: int| 0 <= i < entries.len() && (#[trigger] entries[i]).0 == name
}

/// What a header map holds after the pairs were added in order, those with an invalid name
/// or value left out.
pub open spec fn filled(pairs: Seq<(Seq<char>, Seq<char>)>) -> Seq<(Seq<char>, Seq<u8>)>
    decreases pairs.len(),
{
    if pairs.len() == 0 {
        Seq::empty()
    } else {
        let before = filled(pairs.drop_last());
        let (name, value) = pairs.last();
        if is_header_name(name) && is_header_value(value) {
            appended(before, normal_name(name), vstd::utf8::encode_utf8(value))
        } else {
            before
        }
    }
}

/// The headers that concern one connection only and are never passed on.
pub open spec fn is_hop_by_hop(name: Seq<char>) -> bool {
    ||| name == "connection"@
    ||| name == "host"@
    ||| name == "keep-alive"@
    ||| name == "proxy-authenticate"@
    ||| name == "proxy-authorization"@
    ||| name == "te"@
    ||| name == "trailer"@
    ||| name == "transfer-encoding"@
    ||| name == "upgrade"@
    ||| name == "sec-websocket-key"@
    ||| name == "sec-websocket-version"@
    ||| name == "sec-websocket-extensions"@
    ||| name == "sec-websocket-accept"@
    ||| name == "sec-websocket-protocol"@
}

/// The way in which a header travels through the relay.
#[derive(Clone, Copy, Debug, PartialEq, Eq, Structural)]
pub enum HeaderRule {
    Request,
    Response,
}

impl HeaderRule {
    /// Headers of this rule that the relay passes on.
    pub open spec fn passes(self, name: Seq<char>) -> bool {
        match self {
            HeaderRule::Request => !is_hop_by_hop(name),
            HeaderRule::Response => !is_hop_by_hop(name),
        }
    }

    pub fn allows(&self, name: &str) -> (res: bool)
        ensures
            res == self.passes(name@),
    {
        match self {
            HeaderRule::Request => relay_request_header_allowed(name),
            HeaderRule::Response => relay_response_header_allowed(name),
        }
    }
}

/// The entries that the relay passes on, as text: those that the rule allows and whose value
/// is visible ASCII.
pub open spec fn passed_on(entries: Seq<(Seq<char>, Seq<u8>)>, rule: HeaderRule) -> Seq<
    (Seq<char>, Seq<char>),
>
    decreases entries.len(),
{
    if entries.len() == 0 {
        Seq::empty()
    } else {
        let before = passed_on(entries.drop_last(), rule);
        let (name, value) = entries.last();
        match visible_text(value) {
            Some(shown) => if rule.passes(name) {
                before.push((name, shown))
            } else {
                before
            },
            None => before,
        }
    }
}

/// Trusted: `HeaderMap::new`. The new map is empty.
#[verifier::external_body]
fn new_map() -> (res: HeaderMap<HeaderValue>)
    ensures
        header_entries(res) == Seq::<(Seq<char>, Seq<u8>)>::empty(),
{
    HeaderMap::new()
}

/// Trusted: `HeaderMap::iter`. It hands out each name once per value; a value comes as the
/// text that `HeaderValue::to_str` gives for it, none where it gives an error.
#[verifier::external_body]
fn list_entries(map: &HeaderMap<HeaderValue>) -> (res: Vec<(String, Option<String>)>)
    ensures
        res@.len() == header_entries(*map).len(),
        forall|i: int|
            0 <= i < res@.len() ==> (#[trigger] res@[i]).0@ == header_entries(*map)[i].0
                && text::optional(res@[i].1) == visible_text(header_entries(*map)[i].1),
{
    map.iter()
        .map(|(name, value)| (name.as_str().to_string(), value.to_str().ok().map(str::to_string)))
        .collect()
}

/// Trusted: `HeaderName::from_bytes`. It accepts what `is_header_name` says, and refuses
/// everything else.
#[verifier::external_body]
fn accepts_name(name: &str) -> (res: bool)
    ensures
        res == is_header_name(name@),
{
    axum::http::HeaderName::from_bytes(name.as_bytes()).is_ok()
}

/// Trusted: `HeaderValue::from_str`. It accepts what `is_header_value` says, and refuses
/// everything else.
#[verifier::external_body]
fn accepts_value(value: &str) -> (res: bool)
    ensures
        res == is_header_value(value@),
{
    HeaderValue::from_str(value).is_ok()
}

/// Trusted: `HeaderMap::try_append` with a name of `HeaderName::from_bytes` and a value of
/// `HeaderValue::from_str`. The name is kept in lower case, the value as its UTF-8 bytes;
/// the entry comes behind those of the same name, or at the end. Where the map has no room
/// left it stays as it is; with fewer entries than `ROOM` it has room.
#[verifier::external_body]
fn append_entry(map: &mut HeaderMap<HeaderValue>, name: &str, value: &str) -> (res: bool)
    requires
        is_header_name(name@),
        is_header_value(value@),
    ensures
        header_entries(*final(map)) == (if res {
            appended(
                header_entries(*old(map)),
                normal_name(name@),
                vstd::utf8::encode_utf8(value@),
            )
        } else {
            header_entries(*old(map))
        }),
        header_entries(*old(map)).len() < ROOM ==> res,
{
    map.try_append(
        axum::http::HeaderName::from_bytes(name.as_bytes()).unwrap(),
        HeaderValue::from_str(value).unwrap(),
    ).is_ok()
}

/// Whether a header concerns one connection only.
pub fn is_hop_by_hop_header(name: &str) -> (res: bool)
    ensures
        res == is_hop_by_hop(name@),
{
    text::same(name, "connection") || text::same(name, "host") || text::same(name, "keep-alive")
        || text::same(name, "proxy-authenticate") || text::same(name, "proxy-authorization")
        || text::same(name, "te") || text::same(name, "trailer") || text::same(
        name,
        "transfer-encoding",
    ) || text::same(name, "upgrade") || text::same(name, "sec-websocket-key") || text::same(
        name,
        "sec-websocket-version",
    ) || text::same(name, "sec-websocket-extensions") || text::same(name, "sec-websocket-accept")
        || text::same(name, "sec-websocket-protocol")
}

/// Whether the relay passes on a request header.
pub fn relay_request_header_allowed(name: &str) -> (res: bool)
    ensures
        res == !is_hop_by_hop(name@),
{
    !is_hop_by_hop_header(name)
}

/// Whether the relay passes on a response header.
pub fn relay_response_header_allowed(name: &str) -> (res: bool)
    ensures
        res == !is_hop_by_hop(name@),
{
    !is_hop_by_hop_header(name)
}

/// Whether a text can be the value of a header.
pub fn valid_header_value(value: &str) -> (res: bool)
    ensures
        res == is_header_value(value@),
{
    accepts_value(value)
}

/// The text of the first header of this name, none where there is no such header or where it
/// is not a text.
pub open spec fn first_text(entries: Seq<(Seq<char>, Seq<u8>)>, name: Seq<char>) -> Option<
    Seq<char>,
>
    decreases entries.len(),
{
    if entries.len() == 0 {
        None
    } else if entries[0].0 == name {
        visible_text(entries[0].1)
    } else {
        first_text(entries.skip(1), name)
    }
}

/// The text of the first header of this name.
pub fn header_text(headers: &HeaderMap<HeaderValue>, name: &str) -> (res: Option<String>)
    ensures
        text::optional(res) == first_text(header_entries(*headers), name@),
{
    let listed = list_entries(headers);
    let ghost entries = header_entries(*headers);
    let mut i: usize = 0;
    assert(entries.skip(0) =~= entries);
    while i < listed.len()
        invariant
            entries == header_entries(*headers),
            listed@.len() == entries.len(),
            forall|k: int|
                0 <= k < listed@.len() ==> (#[trigger] listed@[k]).0@ == entries[k].0
                    && text::optional(listed@[k].1) == visible_text(entries[k].1),
            i <= listed@.len(),
            first_text(entries.skip(i as int), name@) == first_text(entries, name@),
        decreases listed@.len() - i,
    {
        assert(entries.skip(i as int)[0] == entries[i as int]);
        assert(entries.skip(i as int).skip(1) =~= entries.skip(i + 1));
        assert(listed@[i as int].0@ == entries[i as int].0);
        if text::same(listed[i].0.as_str(), name) {
            return text::copy_optional(&listed[i].1);
        }
        i = i + 1;
    }
    None
}

/// The headers of a map that the rule passes on, as pairs.
pub fn headers_to_pairs(headers: &HeaderMap<HeaderValue>, allow: HeaderRule) -> (res: Vec<
    HeaderPair,
>)
    ensures
        relay_protocol::pair_views(res@) == passed_on(header_entries(*headers), allow),
{
    let listed = list_entries(headers);
    let ghost entries = header_entries(*headers);
    let mut pairs: Vec<HeaderPair> = Vec::new();
    let mut i: usize = 0;
    assert(relay_protocol::pair_views(pairs@) =~= passed_on(entries.take(0), allow));
    while i < listed.len()
        invariant
            entries == header_entries(*headers),
            listed@.len() == entries.len(),
            forall|k: int|
                0 <= k < listed@.len() ==> (#[trigger] listed@[k]).0@ == entries[k].0
                    && text::optional(listed@[k].1) == visible_text(entries[k].1),
            i <= listed@.len(),
            relay_protocol::pair_views(pairs@) == passed_on(entries.take(i as int), allow),
        decreases listed@.len() - i,
    {
        let ghost before = pairs@;
        assert(entries.take(i + 1).drop_last() =~= entries.take(i as int));
        assert(listed@[i as int].0@ == entries[i as int].0);
        if allow.allows(listed[i].0.as_str()) {
            match &listed[i].1 {
                Some(value) => {
                    pairs.push(HeaderPair { name: listed[i].0.clone(), value: value.clone() });
                    assert(relay_protocol::pair_views(pairs@) =~= relay_protocol::pair_views(
                        before,
                    ).push((entries[i as int].0, value@)));
                },
                None => {},
            }
        }
        i = i + 1;
    }
    assert(entries.take(i as int) =~= entries);
    pairs
}

/// The map of the pairs with a valid name and a valid value; none where the map has no room
/// for them.
pub fn pairs_to_headers(pairs: &Vec<HeaderPair>) -> (res: Option<HeaderMap<HeaderValue>>)
    ensures
        res matches Some(map) ==> header_entries(map) == filled(
            relay_protocol::pair_views(pairs@),
        ),
        pairs@.len() <= ROOM ==> res is Some,
{
    let mut map = new_map();
    let ghost all = relay_protocol::pair_views(pairs@);
    let mut i: usize = 0;
    while i < pairs.len()
        invariant
            all == relay_protocol::pair_views(pairs@),
            i <= pairs@.len(),
            header_entries(map) == filled(all.take(i as int)),
            header_entries(map).len() <= i,
        decreases pairs@.len() - i,
    {
        proof {
            assert(all.take(i + 1).drop_last() =~= all.take(i as int));
            assert(all[i as int] == pairs@[i as int]@);
            appended_adds_one(
                header_entries(map),
                normal_name(pairs@[i as int].name@),
                vstd::utf8::encode_utf8(pairs@[i as int].value@),
            );
        }
        if accepts_name(pairs[i].name.as_str()) && accepts_value(pairs[i].value.as_str()) {
            if !append_entry(&mut map, pairs[i].name.as_str(), pairs[i].value.as_str()) {
                return None;
            }
        }
        i = i + 1;
    }
    assert(all.take(i as int) =~= all);
    Some(map)
}

/// Appending adds one entry.
pub proof fn appended_adds_one(
    entries: Seq<(Seq<char>, Seq<u8>)>,
    name: Seq<char>,
    value: Seq<u8>,
)
    ensures
        appended(entries, name, value).len() == entries.len() + 1,
    decreases entries.len(),
{
    if !(entries.len() == 0 || entries.last().0 == name || !has_name(entries, name)) {
        appended_adds_one(entries.drop_last(), name, value);
    }
}

/// No header that concerns one connection only is passed on, whatever the map holds.
pub proof fn hop_by_hop_is_never_passed_on(
    entries: Seq<(Seq<char>, Seq<u8>)>,
    rule: HeaderRule,
    i: int,
)
    requires
        0 <= i < passed_on(entries, rule).len(),
    ensures
        !is_hop_by_hop(passed_on(entries, rule)[i].0),
    decreases entries.len(),
{
    if entries.len() > 0 && i < passed_on(entries.drop_last(), rule).len() {
        hop_by_hop_is_never_passed_on(entries.drop_last(), rule, i);
    }
}

/// The name is already in the form in which a header map keeps it.
pub open spec fn is_normal(name: Seq<char>) -> bool {
    &&& is_header_name(name)
    &&& forall|i: int| 0 <= i < name.len() ==> !('A' <= #[trigger] name[i] <= 'Z')
}

/// The value is visible ASCII.
pub open spec fn is_plain(value: Seq<char>) -> bool {
    forall|i: int| 0 <= i < value.len() ==> (' ' <= #[trigger] value[i] <= '~') || value[i] == '\t'
}

pub(crate) proof fn lemma_plain_value(value: Seq<char>)
    requires
        is_plain(value),
    ensures
        is_header_value(value),
        visible_text(vstd::utf8::encode_utf8(value)) == Some(value),
{
    assert(vstd::utf8::is_ascii_chars(value));
    vstd::utf8::is_ascii_chars_encode_utf8(value);
    let bytes = vstd::utf8::encode_utf8(value);
    assert forall|i: int| 0 <= i < bytes.len() implies is_visible(#[trigger] bytes[i]) by {
        assert(bytes[i] == value[i] as u8);
        assert((' ' <= value[i] <= '~') || value[i] == '\t');
    }
    assert(bytes.map_values(|b: u8| b as char) =~= value) by {
        assert forall|i: int| 0 <= i < value.len() implies (#[trigger] value[i]) as u8 as char
            == value[i] by {
            assert((' ' <= value[i] <= '~') || value[i] == '\t');
        }
    }
}

/// Headers that a relay may pass on survive the way through a header map unchanged, as long
/// as their names are distinct and in lower case and their values visible ASCII.
pub proof fn headers_survive(pairs: Seq<(Seq<char>, Seq<char>)>, rule: HeaderRule)
    requires
        forall|i: int|
            0 <= i < pairs.len() ==> is_normal((#[trigger] pairs[i]).0) && is_plain(pairs[i].1)
                && rule.passes(pairs[i].0),
        forall|i: int, j: int| 0 <= i < j < pairs.len() ==> pairs[i].0 != pairs[j].0,
    ensures
        passed_on(filled(pairs), rule) == pairs,
        filled(pairs).len() == pairs.len(),
        forall|i: int| 0 <= i < pairs.len() ==> (#[trigger] filled(pairs)[i]).0 == pairs[i].0,
    decreases pairs.len(),
{
    if pairs.len() > 0 {
        let front = pairs.drop_last();
        let (name, value) = pairs.last();
        headers_survive(front, rule);
        assert(pairs[pairs.len() - 1] == pairs.last());
        lemma_plain_value(value);
        assert(normal_name(name) =~= name) by {
            assert forall|i: int| 0 <= i < name.len() implies lower_case(#[trigger] name[i])
                == name[i] by {}
        }
        assert(!has_name(filled(front), name)) by {
            assert forall|i: int| 0 <= i < front.len() implies (#[trigger] filled(front)[i]).0
                != name by {
                assert(front[i] == pairs[i]);
            }
        }
        assert(filled(pairs) == filled(front).push((name, vstd::utf8::encode_utf8(value))));
        assert(filled(pairs).drop_last() =~= filled(front));
        assert(passed_on(filled(pairs), rule) =~= pairs);
    } else {
        assert(passed_on(filled(pairs), rule) =~= pairs);
    }
}

} // verus!
