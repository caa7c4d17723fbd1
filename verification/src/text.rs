//! Strings as sequences of characters: searching, trimming, joining and replacing.
pub mod laws;

use vstd::prelude::*;

verus! {

/// Trusted: `String::push` of the standard library, which appends one character to the
/// end of the string.
pub assume_specification[ String::push ](s: &mut String, c: char)
    ensures
        final(s)@ == old(s)@.push(c),
;

/// `pattern` stands in `text` at position `at`.
pub open spec fn occurs_at(text: Seq<char>, pattern: Seq<char>, at: int) -> bool {
    &&& 0 <= at
    &&& at + pattern.len() <= text.len()
    &&& text.subrange(at, at + pattern.len()) == pattern
}

/// `text` begins with `pattern`.
pub open spec fn starts_with(text: Seq<char>, pattern: Seq<char>) -> bool {
    occurs_at(text, pattern, 0)
}

/// `text` ends with `pattern`.
pub open spec fn ends_with(text: Seq<char>, pattern: Seq<char>) -> bool {
    occurs_at(text, pattern, text.len() - pattern.len())
}

/// `pattern` stands somewhere in `text`.
pub open spec fn contains(text: Seq<char>, pattern: Seq<char>) -> bool {
    exists|at: int| occurs_at(text, pattern, at)
}

/// The views of a sequence of strings.
pub open spec fn views(strings: Seq<String>) -> Seq<Seq<char>> {
    strings.map_values(|s: String| s@)
}

/// The view of an optional string.
pub open spec fn optional(string: Option<String>) -> Option<Seq<char>> {
    match string {
        Some(s) => Some(s@),
        None => None,
    }
}

/// The view of an optional string slice.
pub open spec fn optional_str(string: Option<&str>) -> Option<Seq<char>> {
    match string {
        Some(s) => Some(s@),
        None => None,
    }
}

/// The parts in order, with `separator` between each two neighbours.
pub open spec fn joined(parts: Seq<Seq<char>>, separator: Seq<char>) -> Seq<char>
    decreases parts.len(),
{
    if parts.len() == 0 {
        Seq::empty()
    } else if parts.len() == 1 {
        parts[0]
    } else {
        joined(parts.drop_last(), separator) + separator + parts.last()
    }
}

/// `text` with each occurrence of the nonempty `from`, taken from left to right and
/// without overlap, replaced by `to`.
pub open spec fn replaced(text: Seq<char>, from: Seq<char>, to: Seq<char>) -> Seq<char>
    decreases text.len(),
{
    if from.len() == 0 || text.len() < from.len() {
        text
    } else if starts_with(text, from) {
        to + replaced(text.skip(from.len() as int), from, to)
    } else {
        seq![text[0]] + replaced(text.skip(1), from, to)
    }
}

/// The characters with the Unicode property `White_Space`.
pub open spec fn is_space(c: char) -> bool {
    ||| '\u{9}' <= c <= '\u{d}'
    ||| c == '\u{20}'
    ||| c == '\u{85}'
    ||| c == '\u{a0}'
    ||| c == '\u{1680}'
    ||| '\u{2000}' <= c <= '\u{200a}'
    ||| c == '\u{2028}'
    ||| c == '\u{2029}'
    ||| c == '\u{202f}'
    ||| c == '\u{205f}'
    ||| c == '\u{3000}'
}

/// `text` from its first character that is not white space on.
pub open spec fn trimmed_start(text: Seq<char>) -> Seq<char>
    decreases text.len(),
{
    if text.len() > 0 && is_space(text[0]) {
        trimmed_start(text.skip(1))
    } else {
        text
    }
}

/// `text` up to its last character that is not white space.
pub open spec fn trimmed_end(text: Seq<char>) -> Seq<char>
    decreases text.len(),
{
    if text.len() > 0 && is_space(text.last()) {
        trimmed_end(text.drop_last())
    } else {
        text
    }
}

/// `text` without white space at either end.
pub open spec fn trimmed(text: Seq<char>) -> Seq<char> {
    trimmed_end(trimmed_start(text))
}

/// `text` without the run of `c` at its end.
pub open spec fn without_trailing(text: Seq<char>, c: char) -> Seq<char>
    decreases text.len(),
{
    if text.len() > 0 && text.last() == c {
        without_trailing(text.drop_last(), c)
    } else {
        text
    }
}

/// The first `count` characters of `text`, or all of it where it is shorter.
pub open spec fn clipped(text: Seq<char>, count: nat) -> Seq<char> {
    if text.len() <= count {
        text
    } else {
        text.take(count as int)
    }
}

/// The characters of `text`.
pub fn chars_of(text: &str) -> (res: Vec<char>)
    ensures
        res@ == text@,
{
    let mut out: Vec<char> = Vec::new();
    for c in it: text.chars()
        invariant
            out@ == it.seq().take(it.index() as int),
            it.seq() == text@,
    {
        out.push(c);
    }
    out
}

/// The string of `chars` from `from` up to, not including, `to`.
pub fn string_of(chars: &Vec<char>, from: usize, to: usize) -> (res: String)
    requires
        from <= to <= chars@.len(),
    ensures
        res@ == chars@.subrange(from as int, to as int),
{
    let mut out = String::new();
    let mut i: usize = from;
    while i < to
        invariant
            from <= i <= to <= chars@.len(),
            out@ == chars@.subrange(from as int, i as int),
        decreases to - i,
    {
        out.push(chars[i]);
        i = i + 1;
    }
    out
}

/// Whether two strings hold the same characters.
pub fn same(a: &str, b: &str) -> (res: bool)
    ensures
        res == (a@ == b@),
{
    a.to_owned() == b.to_owned()
}

fn matches_at(text: &Vec<char>, pattern: &Vec<char>, at: usize) -> (res: bool)
    ensures
        res == occurs_at(text@, pattern@, at as int),
{
    if text.len() < pattern.len() || at > text.len() - pattern.len() {
        return false;
    }
    let mut i: usize = 0;
    while i < pattern.len()
        invariant
            at + pattern@.len() <= text.len(),
            i <= pattern@.len(),
            forall|j: int| 0 <= j < i ==> text@[at + j] == pattern@[j],
        decreases pattern@.len() - i,
    {
        if text[at + i] != pattern[i] {
            assert(text@.subrange(at as int, at + pattern@.len())[i as int] != pattern@[i as int]);
            return false;
        }
        i = i + 1;
    }
    assert(text@.subrange(at as int, at + pattern@.len()) =~= pattern@);
    true
}

/// Whether `text` begins with `pattern`.
pub fn has_prefix(text: &str, pattern: &str) -> (res: bool)
    ensures
        res == starts_with(text@, pattern@),
{
    matches_at(&chars_of(text), &chars_of(pattern), 0)
}

/// Whether `text` ends with `pattern`.
pub fn has_suffix(text: &str, pattern: &str) -> (res: bool)
    ensures
        res == ends_with(text@, pattern@),
{
    let chars = chars_of(text);
    let wanted = chars_of(pattern);
    if chars.len() < wanted.len() {
        return false;
    }
    matches_at(&chars, &wanted, chars.len() - wanted.len())
}

/// Whether `pattern` stands somewhere in `text`.
pub fn has_substring(text: &str, pattern: &str) -> (res: bool)
    ensures
        res == contains(text@, pattern@),
{
    let chars = chars_of(text);
    let wanted = chars_of(pattern);
    if chars.len() < wanted.len() {
        return false;
    }
    let last: usize = chars.len() - wanted.len();
    let mut at: usize = 0;
    while at < last
        invariant
            chars@ == text@,
            wanted@ == pattern@,
            last == chars@.len() - wanted@.len(),
            at <= last,
            forall|k: int| 0 <= k < at ==> !occurs_at(text@, pattern@, k),
        decreases last - at,
    {
        if matches_at(&chars, &wanted, at) {
            return true;
        }
        at = at + 1;
    }
    matches_at(&chars, &wanted, last)
}

/// Whether `c` is white space.
pub fn is_space_char(c: char) -> (res: bool)
    ensures
        res == is_space(c),
{
    ('\u{9}' <= c && c <= '\u{d}') || c == '\u{20}' || c == '\u{85}' || c == '\u{a0}' || c
        == '\u{1680}' || ('\u{2000}' <= c && c <= '\u{200a}') || c == '\u{2028}' || c == '\u{2029}'
        || c == '\u{202f}' || c == '\u{205f}' || c == '\u{3000}'
}

/// `text` without white space at either end.
pub fn trim(text: &str) -> (res: String)
    ensures
        res@ == trimmed(text@),
{
    let chars = chars_of(text);
    let mut from: usize = 0;
    assert(chars@.skip(0) =~= text@);
    while from < chars.len() && is_space_char(chars[from])
        invariant
            chars@ == text@,
            from <= chars@.len(),
            trimmed_start(chars@.skip(from as int)) == trimmed_start(text@),
        decreases chars@.len() - from,
    {
        assert(chars@.skip(from as int).skip(1) =~= chars@.skip(from + 1));
        from = from + 1;
    }
    let ghost start = trimmed_start(text@);
    assert(chars@.skip(from as int) == start);
    let mut to: usize = chars.len();
    assert(chars@.subrange(from as int, to as int) =~= start);
    while to > from && is_space_char(chars[to - 1])
        invariant
            from <= to <= chars@.len(),
            trimmed_end(chars@.subrange(from as int, to as int)) == trimmed_end(start),
        decreases to,
    {
        assert(chars@.subrange(from as int, to as int).drop_last() =~= chars@.subrange(
            from as int,
            to - 1,
        ));
        to = to - 1;
    }
    string_of(&chars, from, to)
}

/// `text` without the run of `c` at its end.
pub fn trim_trailing(text: &str, c: char) -> (res: String)
    ensures
        res@ == without_trailing(text@, c),
{
    let chars = chars_of(text);
    let mut to: usize = chars.len();
    assert(chars@.take(to as int) =~= text@);
    while to > 0 && chars[to - 1] == c
        invariant
            to <= chars@.len(),
            without_trailing(chars@.take(to as int), c) == without_trailing(text@, c),
        decreases to,
    {
        assert(chars@.take(to as int).drop_last() =~= chars@.take(to - 1));
        to = to - 1;
    }
    assert(chars@.take(to as int) =~= chars@.subrange(0, to as int));
    string_of(&chars, 0, to)
}

/// The first `count` characters of `text`.
pub fn clip(text: &str, count: usize) -> (res: String)
    ensures
        res@ == clipped(text@, count as nat),
{
    let chars = chars_of(text);
    let to: usize = if chars.len() <= count { chars.len() } else { count };
    assert(chars@.subrange(0, to as int) =~= clipped(text@, count as nat));
    string_of(&chars, 0, to)
}

/// The parts in order, with `separator` between each two neighbours.
pub fn join(parts: &Vec<String>, separator: &str) -> (res: String)
    ensures
        res@ == joined(views(parts@), separator@),
{
    let mut out = String::new();
    let ghost all = views(parts@);
    let mut i: usize = 0;
    while i < parts.len()
        invariant
            all == views(parts@),
            i <= parts@.len(),
            out@ == joined(all.take(i as int), separator@),
        decreases parts@.len() - i,
    {
        if i > 0 {
            out.append(separator);
        }
        out.append(parts[i].as_str());
        assert(all.take(i + 1).drop_last() =~= all.take(i as int));
        i = i + 1;
    }
    assert(all.take(all.len() as int) =~= all);
    out
}

/// `text` with each occurrence of `from`, taken from left to right and without overlap,
/// replaced by `to`.
pub fn replace_all(text: &str, from: &str, to: &str) -> (res: String)
    requires
        from@.len() > 0,
    ensures
        res@ == replaced(text@, from@, to@),
{
    let chars = chars_of(text);
    let wanted = chars_of(from);
    let mut out = String::new();
    let mut at: usize = 0;
    assert(chars@.skip(0) =~= text@);
    while at < chars.len()
        invariant
            chars@ == text@,
            wanted@ == from@,
            from@.len() > 0,
            at <= chars@.len(),
            out@ + replaced(chars@.skip(at as int), from@, to@) == replaced(text@, from@, to@),
        decreases chars@.len() - at,
    {
        let ghost rest = chars@.skip(at as int);
        if matches_at(&chars, &wanted, at) {
            proof {
                assert(rest.subrange(0, from@.len() as int) =~= from@);
                assert(rest.skip(from@.len() as int) =~= chars@.skip(at + from@.len()));
            }
            let ghost before = out@;
            out.append(to);
            proof {
                assert(before + (to@ + replaced(rest.skip(from@.len() as int), from@, to@)) =~= out@
                    + replaced(rest.skip(from@.len() as int), from@, to@));
            }
            at = at + wanted.len();
        } else {
            proof {
                if starts_with(rest, from@) {
                    assert(chars@.subrange(at as int, at + from@.len()) =~= rest.subrange(
                        0,
                        from@.len() as int,
                    ));
                }
                assert(rest.skip(1) =~= chars@.skip(at + 1));
                if rest.len() < from@.len() {
                    assert(replaced(rest, from@, to@) == rest);
                    assert(replaced(rest.skip(1), from@, to@) == rest.skip(1));
                    assert(rest =~= seq![rest[0]] + rest.skip(1));
                }
            }
            let ghost before = out@;
            out.push(chars[at]);
            proof {
                assert(before + (seq![rest[0]] + replaced(rest.skip(1), from@, to@)) =~= out@
                    + replaced(rest.skip(1), from@, to@));
            }
            at = at + 1;
        }
    }
    assert(chars@.skip(at as int) =~= Seq::<char>::empty());
    assert(out@ + Seq::<char>::empty() =~= out@);
    out
}

/// `text` without any `c`.
pub fn remove_char(text: &str, c: char) -> (res: String)
    ensures
        res@ == text@.filter(|x: char| x != c),
{
    let chars = chars_of(text);
    let mut out = String::new();
    let ghost keep = |x: char| x != c;
    let mut i: usize = 0;
    assert(chars@.take(0).filter(keep) =~= Seq::<char>::empty()) by {
        reveal(Seq::filter);
    }
    while i < chars.len()
        invariant
            chars@ == text@,
            keep == (|x: char| x != c),
            i <= chars@.len(),
            out@ == chars@.take(i as int).filter(keep),
        decreases chars@.len() - i,
    {
        proof {
            reveal(Seq::filter);
            assert(chars@.take(i + 1).drop_last() =~= chars@.take(i as int));
        }
        if chars[i] != c {
            out.push(chars[i]);
        }
        i = i + 1;
    }
    assert(chars@.take(i as int) =~= text@);
    out
}

/// Whether `c` stands in `text`.
pub fn has_char(text: &str, c: char) -> (res: bool)
    ensures
        res == text@.contains(c),
{
    let chars = chars_of(text);
    let mut i: usize = 0;
    while i < chars.len()
        invariant
            chars@ == text@,
            i <= chars@.len(),
            forall|k: int| 0 <= k < i ==> chars@[k] != c,
        decreases chars@.len() - i,
    {
        if chars[i] == c {
            return true;
        }
        i = i + 1;
    }
    false
}

/// The parts of `text` before and behind the first `c` in it.
pub fn split_once(text: &str, c: char) -> (res: Option<(String, String)>)
    ensures
        match text@.index_of_first(c) {
            Some(i) => res matches Some((before, behind)) && before@ == text@.take(i) && behind@
                == text@.skip(i + 1),
            None => res is None,
        },
{
    let chars = chars_of(text);
    proof {
        text@.index_of_first_ensures(c);
    }
    let mut i: usize = 0;
    while i < chars.len()
        invariant
            chars@ == text@,
            i <= chars@.len(),
            forall|k: int| 0 <= k < i ==> chars@[k] != c,
            match text@.index_of_first(c) {
                Some(at) => 0 <= at < text@.len() && text@[at] == c && (forall|j: int|
                    0 <= j < at < text@.len() ==> text@[j] != c),
                None => !text@.contains(c),
            },
        decreases chars@.len() - i,
    {
        if chars[i] == c {
            assert(chars@.subrange(0, i as int) =~= text@.take(i as int));
            assert(chars@.subrange(i + 1, chars@.len() as int) =~= text@.skip(i + 1));
            return Some((string_of(&chars, 0, i), string_of(&chars, i + 1, chars.len())));
        }
        i = i + 1;
    }
    None
}

/// `text` without its first `count` characters.
pub fn drop_front(text: &str, count: usize) -> (res: String)
    requires
        count <= text@.len(),
    ensures
        res@ == text@.skip(count as int),
{
    let chars = chars_of(text);
    assert(chars@.subrange(count as int, chars@.len() as int) =~= text@.skip(count as int));
    string_of(&chars, count, chars.len())
}

/// A copy of an optional string.
pub fn copy_optional(string: &Option<String>) -> (res: Option<String>)
    ensures
        optional(res) == optional(*string),
{
    match string {
        Some(inner) => Some(inner.clone()),
        None => None,
    }
}

/// An optional string, borrowed.
pub fn borrow_optional(string: &Option<String>) -> (res: Option<&str>)
    ensures
        optional_str(res) == optional(*string),
{
    match string {
        Some(inner) => Some(inner.as_str()),
        None => None,
    }
}

/// Puts copies of `more` behind `strings`.
pub fn append_copies(strings: &mut Vec<String>, more: &Vec<String>)
    ensures
        views(final(strings)@) == views(old(strings)@) + views(more@),
{
    let ghost before = strings@;
    let mut i: usize = 0;
    assert(views(more@).take(0) =~= Seq::empty());
    while i < more.len()
        invariant
            i <= more@.len(),
            before == old(strings)@,
            views(strings@) == views(before) + views(more@).take(i as int),
        decreases more@.len() - i,
    {
        let ghost last = strings@;
        strings.push(more[i].clone());
        assert(views(strings@) =~= views(last).push(more@[i as int]@));
        assert(views(more@).take(i + 1) =~= views(more@).take(i as int).push(more@[i as int]@));
        i = i + 1;
    }
    assert(views(more@).take(i as int) =~= views(more@));
}

/// Whether `wanted` is one of the strings.
pub fn has_string(strings: &Vec<String>, wanted: &str) -> (res: bool)
    ensures
        res == views(strings@).contains(wanted@),
{
    let mut i: usize = 0;
    while i < strings.len()
        invariant
            i <= strings@.len(),
            forall|k: int| 0 <= k < i ==> #[trigger] views(strings@)[k] != wanted@,
        decreases strings@.len() - i,
    {
        if same(strings[i].as_str(), wanted) {
            assert(views(strings@)[i as int] == wanted@);
            return true;
        }
        i = i + 1;
    }
    assert(!views(strings@).contains(wanted@));
    false
}

} // verus!
