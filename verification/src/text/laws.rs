//! What holds of the functions on texts.
use vstd::prelude::*;

use crate::text;

verus! {

/// What stands in the front of a text stands in the text.
pub broadcast proof fn front_is_contained(a: Seq<char>, b: Seq<char>, part: Seq<char>)
    requires
        text::contains(a, part),
    ensures
        #[trigger] text::contains(a + b, part),
{
    let at = choose|at: int| text::occurs_at(a, part, at);
    assert((a + b).subrange(at, at + part.len()) =~= a.subrange(at, at + part.len()));
    assert(text::occurs_at(a + b, part, at));
}

/// What stands in the back of a text stands in the text.
pub broadcast proof fn back_is_contained(a: Seq<char>, b: Seq<char>, part: Seq<char>)
    requires
        text::contains(b, part),
    ensures
        #[trigger] text::contains(a + b, part),
{
    let at = choose|at: int| text::occurs_at(b, part, at);
    assert((a + b).subrange(a.len() + at, a.len() + at + part.len()) =~= b.subrange(
        at,
        at + part.len(),
    ));
    assert(text::occurs_at(a + b, part, a.len() + at));
}

/// A text stands in itself.
pub broadcast proof fn text_contains_itself(a: Seq<char>)
    ensures
        #[trigger] text::contains(a, a),
{
    assert(a.subrange(0, a.len() as int) =~= a);
    assert(text::occurs_at(a, a, 0));
}

/// What stands between two other parts of a text is found in it.
pub proof fn middle_is_contained(a: Seq<char>, part: Seq<char>, b: Seq<char>)
    ensures
        text::contains(a + part + b, part),
        text::starts_with(part + b, part),
        text::ends_with(a + part, part),
{
    broadcast use {front_is_contained, back_is_contained, text_contains_itself};

    assert((part + b).subrange(0, part.len() as int) =~= part);
    assert((a + part).subrange(a.len() as int, (a + part).len() as int) =~= part);
}

/// A text that contains a part is made of what stands before it, the part, and what stands
/// behind it.
pub proof fn contained_part_splits_text(whole: Seq<char>, part: Seq<char>)
    requires
        text::contains(whole, part),
    ensures
        exists|a: Seq<char>, b: Seq<char>| whole == #[trigger] (a + part + b),
{
    let at = choose|at: int| text::occurs_at(whole, part, at);
    let a = whole.take(at);
    let b = whole.skip(at + part.len());
    assert(whole =~= a + part + b);
}

/// Each further part is joined to the others with one separator; a single part stands alone.
pub proof fn parts_are_joined_one_by_one(
    parts: Seq<Seq<char>>,
    part: Seq<char>,
    separator: Seq<char>,
)
    ensures
        parts.len() > 0 ==> text::joined(parts.push(part), separator) == text::joined(
            parts,
            separator,
        ) + separator + part,
        text::joined(seq![part], separator) == part,
        text::joined(Seq::empty(), separator) == Seq::<char>::empty(),
{
    assert(parts.push(part).drop_last() =~= parts);
    assert(parts.push(part).last() == part);
}

/// The first place where a text is found is filled with the other one, and so is the rest; a
/// text that is found nowhere changes nothing.
pub proof fn replacing_fills_each_place(
    whole: Seq<char>,
    from: Seq<char>,
    to: Seq<char>,
    at: int,
)
    requires
        from.len() > 0,
        text::occurs_at(whole, from, at),
        forall|k: int| 0 <= k < at ==> !text::occurs_at(whole, from, k),
    ensures
        text::replaced(whole, from, to) == whole.take(at) + to + text::replaced(
            whole.skip(at + from.len()),
            from,
            to,
        ),
    decreases at,
{
    if at == 0 {
        assert(whole.take(0) + to =~= to);
    } else {
        let rest = whole.skip(1);
        assert(!text::occurs_at(whole, from, 0));
        assert(rest.subrange(at - 1, at - 1 + from.len()) =~= whole.subrange(
            at,
            at + from.len(),
        ));
        assert forall|k: int| 0 <= k < at - 1 implies !text::occurs_at(rest, from, k) by {
            if text::occurs_at(rest, from, k) {
                assert(whole.subrange(k + 1, k + 1 + from.len()) =~= rest.subrange(
                    k,
                    k + from.len(),
                ));
                assert(text::occurs_at(whole, from, k + 1));
            }
        }
        replacing_fills_each_place(rest, from, to, at - 1);
        assert(rest.skip(at - 1 + from.len()) =~= whole.skip(at + from.len()));
        let tail = text::replaced(whole.skip(at + from.len()), from, to);
        assert(seq![whole[0]] + (rest.take(at - 1) + to + tail) =~= whole.take(at) + to + tail);
    }
}

/// Replacing a text that is found nowhere changes nothing.
pub proof fn replacing_what_is_absent_changes_nothing(
    whole: Seq<char>,
    from: Seq<char>,
    to: Seq<char>,
)
    requires
        !text::contains(whole, from),
    ensures
        text::replaced(whole, from, to) == whole,
    decreases whole.len(),
{
    if from.len() == 0 || whole.len() < from.len() {
    } else {
        assert(!text::occurs_at(whole, from, 0));
        let rest = whole.skip(1);
        assert(!text::contains(rest, from)) by {
            if text::contains(rest, from) {
                let k = choose|k: int| text::occurs_at(rest, from, k);
                assert(whole.subrange(k + 1, k + 1 + from.len()) =~= rest.subrange(
                    k,
                    k + from.len(),
                ));
                assert(text::occurs_at(whole, from, k + 1));
            }
        }
        replacing_what_is_absent_changes_nothing(rest, from, to);
        assert(seq![whole[0]] + rest =~= whole);
    }
}

/// White space of a terminal: a space, a tab and the line breaks are, letters, digits and signs
/// are not.
pub proof fn white_space_is_what_it_is(c: char)
    ensures
        c == ' ' || c == '\t' || c == '\n' || c == '\r' ==> text::is_space(c),
        '!' <= c <= '~' ==> !text::is_space(c),
{
}

/// All characters are white space.
pub open spec fn is_blank(part: Seq<char>) -> bool {
    forall|i: int| 0 <= i < part.len() ==> text::is_space(#[trigger] part[i])
}

proof fn lemma_trimmed_start(before: Seq<char>, inner: Seq<char>)
    requires
        is_blank(before),
        inner.len() > 0 ==> !text::is_space(inner[0]),
    ensures
        text::trimmed_start(before + inner) == inner,
    decreases before.len(),
{
    if before.len() > 0 {
        assert(text::is_space(before[0]));
        assert((before + inner).skip(1) =~= before.skip(1) + inner);
        assert forall|i: int| 0 <= i < before.skip(1).len() implies text::is_space(
            #[trigger] before.skip(1)[i],
        ) by {
            assert(before.skip(1)[i] == before[i + 1]);
        }
        lemma_trimmed_start(before.skip(1), inner);
    } else {
        assert(before + inner =~= inner);
    }
}

proof fn lemma_trimmed_end(inner: Seq<char>, behind: Seq<char>)
    requires
        is_blank(behind),
        inner.len() > 0 ==> !text::is_space(inner.last()),
    ensures
        text::trimmed_end(inner + behind) == inner,
    decreases behind.len(),
{
    if behind.len() > 0 {
        assert(text::is_space(behind[behind.len() - 1]));
        assert((inner + behind).drop_last() =~= inner + behind.drop_last());
        assert forall|i: int| 0 <= i < behind.drop_last().len() implies text::is_space(
            #[trigger] behind.drop_last()[i],
        ) by {
            assert(behind.drop_last()[i] == behind[i]);
        }
        lemma_trimmed_end(inner, behind.drop_last());
    } else {
        assert(inner + behind =~= inner);
    }
}

/// Trimming takes away the white space around a text and nothing of the text.
pub proof fn trimming_takes_white_space_only(
    before: Seq<char>,
    inner: Seq<char>,
    behind: Seq<char>,
)
    requires
        is_blank(before),
        is_blank(behind),
        inner.len() > 0,
        !text::is_space(inner[0]),
        !text::is_space(inner.last()),
    ensures
        text::trimmed(before + inner + behind) == inner,
{
    assert(before + inner + behind =~= before + (inner + behind));
    lemma_trimmed_start(before, inner + behind);
    lemma_trimmed_end(inner, behind);
}

/// Nothing is left of white space alone.
pub proof fn trimming_leaves_nothing_of_white_space(blank: Seq<char>)
    requires
        is_blank(blank),
    ensures
        text::trimmed(blank) == Seq::<char>::empty(),
{
    lemma_trimmed_start(blank, Seq::empty());
    assert(blank + Seq::<char>::empty() =~= blank);
}

/// A clipped text is the beginning of the text, as long as is allowed and no longer.
pub proof fn clipping_keeps_the_beginning(whole: Seq<char>, count: nat)
    ensures
        text::clipped(whole, count).is_prefix_of(whole),
        text::clipped(whole, count).len() == if whole.len() < count {
            whole.len()
        } else {
            count
        },
{
}

/// Cutting a text at a character gives what stands before its first occurrence and what stands
/// behind it; a text without the character cannot be cut.
pub proof fn cutting_loses_one_character(
    whole: &str,
    c: char,
    res: Option<(String, String)>,
)
    requires
        call_ensures(text::split_once, (whole, c), res),
    ensures
        match res {
            Some((first, last)) => whole@ == first@.push(c) + last@ && !first@.contains(c),
            None => !whole@.contains(c),
        },
{
    whole@.index_of_first_ensures(c);
    if let Some((first, last)) = res {
        let at = whole@.index_of_first(c).unwrap();
        assert(whole@ =~= first@.push(c) + last@);
    }
}

/// A text starts with its beginnings and ends with its ends, and with nothing else.
pub proof fn starts_and_ends_are_parts(whole: Seq<char>, part: Seq<char>)
    ensures
        text::starts_with(whole, part) <==> part.is_prefix_of(whole),
        text::ends_with(whole, part) <==> part.is_suffix_of(whole),
{
    if part.len() <= whole.len() {
        let front = whole.subrange(0, part.len() as int);
        let back = whole.subrange(whole.len() - part.len(), whole.len() as int);
        if part.is_prefix_of(whole) {
            assert(front =~= part);
        }
        if part.is_suffix_of(whole) {
            assert(back =~= part);
        }
    }
}

/// A text starts with itself.
pub broadcast proof fn text_starts_with_itself(a: Seq<char>)
    ensures
        #[trigger] text::starts_with(a, a),
{
    starts_and_ends_are_parts(a, a);
    assert(a =~= a.subrange(0, a.len() as int));
}

/// A text starts as its front part does.
pub broadcast proof fn front_part_starts_text(a: Seq<char>, b: Seq<char>, start: Seq<char>)
    requires
        text::starts_with(a, start),
    ensures
        #[trigger] text::starts_with(a + b, start),
{
    starts_and_ends_are_parts(a, start);
    starts_and_ends_are_parts(a + b, start);
    assert(start =~= (a + b).subrange(0, start.len() as int));
}

/// A text ends with its back part.
pub broadcast proof fn back_part_ends_text(a: Seq<char>, b: Seq<char>)
    ensures
        #[trigger] text::ends_with(a + b, b),
{
    middle_is_contained(a, b, Seq::empty());
}

} // verus!
