//! Decimal notation of natural numbers.
use vstd::prelude::*;

use crate::text::chars_of;

verus! {

/// The decimal digit of a number below ten.
pub open spec fn digit(d: nat) -> char
    recommends
        d < 10,
{
    (48 + d) as char
}

/// `c` is one of the ten decimal digits.
pub open spec fn is_digit(c: char) -> bool {
    '0' <= c <= '9'
}

/// The decimal digits of `n`, most significant first, without leading zeros.
pub open spec fn decimal(n: nat) -> Seq<char>
    decreases n,
{
    if n < 10 {
        seq![digit(n)]
    } else {
        decimal(n / 10).push(digit(n % 10))
    }
}

/// The decimal digits of `n` with zeros in front up to `width` characters.
pub open spec fn padded(n: nat, width: nat) -> Seq<char>
    decreases width,
{
    if width == 0 {
        Seq::empty()
    } else {
        padded(n / 10, (width - 1) as nat).push(digit(n % 10))
    }
}

/// `text` is made of digits, at least one.
pub open spec fn is_numeral(text: Seq<char>) -> bool {
    &&& text.len() > 0
    &&& forall|i: int| 0 <= i < text.len() ==> is_digit(#[trigger] text[i])
}

/// The number that a sequence of digits stands for.
pub open spec fn value(text: Seq<char>) -> nat
    decreases text.len(),
{
    if text.len() == 0 {
        0
    } else {
        value(text.drop_last()) * 10 + (text.last() as nat - 48) as nat
    }
}

/// The digits behind an optional plus sign.
pub open spec fn unsigned_part(text: Seq<char>) -> Seq<char> {
    if text.len() > 0 && text[0] == '+' {
        text.skip(1)
    } else {
        text
    }
}

/// The number that `text` denotes: digits, with at most one plus sign in front, of a value
/// that fits in 64 bits.
pub open spec fn parsed(text: Seq<char>) -> Option<u64> {
    let digits = unsigned_part(text);
    if is_numeral(digits) && value(digits) <= u64::MAX {
        Some(value(digits) as u64)
    } else {
        None
    }
}

proof fn lemma_value_grows(text: Seq<char>, i: int)
    requires
        0 <= i <= text.len(),
        forall|k: int| 0 <= k < text.len() ==> is_digit(#[trigger] text[k]),
    ensures
        value(text.take(i)) <= value(text),
    decreases text.len(),
{
    if i < text.len() {
        assert(text.drop_last().take(i) =~= text.take(i));
        lemma_value_grows(text.drop_last(), i);
    } else {
        assert(text.take(i) =~= text);
    }
}

/// The number that `text` denotes, if it denotes one.
pub fn parse_u64(text: &str) -> (res: Option<u64>)
    ensures
        res == parsed(text@),
{
    let chars = chars_of(text);
    let start: usize = if chars.len() > 0 && chars[0] == '+' { 1 } else { 0 };
    let ghost digits = unsigned_part(text@);
    assert(digits =~= chars@.skip(start as int));
    if start == chars.len() {
        return None;
    }
    let mut total: u64 = 0;
    let mut i: usize = start;
    assert(digits.take(0) =~= Seq::<char>::empty());
    while i < chars.len()
        invariant
            chars@ == text@,
            start <= i <= chars@.len(),
            digits == unsigned_part(text@),
            digits == chars@.skip(start as int),
            forall|k: int| 0 <= k < i - start ==> is_digit(#[trigger] digits[k]),
            total == value(digits.take(i - start)),
        decreases chars@.len() - i,
    {
        let c = chars[i];
        assert(digits[i - start] == c);
        if c < '0' || c > '9' {
            return None;
        }
        let ghost next = digits.take(i - start + 1);
        assert(next.drop_last() =~= digits.take(i - start));
        let d: u64 = (c as u32 - 48) as u64;
        assert(value(next) == total * 10 + d);
        if total > (u64::MAX - d) / 10 {
            proof {
                if is_numeral(digits) {
                    lemma_value_grows(digits, i - start + 1);
                }
            }
            return None;
        }
        total = total * 10 + d;
        i = i + 1;
    }
    assert(digits.take(i - start) =~= digits);
    Some(total)
}

/// The decimal digits of `n`.
pub fn format_u64(n: u64) -> (res: String)
    ensures
        res@ == decimal(n as nat),
    decreases n,
{
    if n < 10 {
        let mut out = String::new();
        out.push((48 + n as u8) as char);
        assert(out@ =~= seq![digit(n as nat)]);
        out
    } else {
        let mut out = format_u64(n / 10);
        out.push((48 + (n % 10) as u8) as char);
        out
    }
}

/// The decimal digits of a large `n`.
pub fn format_u128(n: u128) -> (res: String)
    ensures
        res@ == decimal(n as nat),
    decreases n,
{
    if n <= u64::MAX as u128 {
        format_u64(n as u64)
    } else {
        let mut out = format_u128(n / 10);
        out.push((48 + (n % 10) as u8) as char);
        out
    }
}

/// The last `width` decimal digits of `n`, with zeros in front.
pub fn format_padded(n: u32, width: u8) -> (res: String)
    ensures
        res@ == padded(n as nat, width as nat),
    decreases width,
{
    if width == 0 {
        String::new()
    } else {
        let mut out = format_padded(n / 10, width - 1);
        out.push((48 + (n % 10) as u8) as char);
        out
    }
}

/// The decimal notation of a number is made of digits.
pub proof fn decimal_is_numeral(n: nat)
    ensures
        is_numeral(decimal(n)),
    decreases n,
{
    if n >= 10 {
        decimal_is_numeral(n / 10);
    }
}

/// The decimal notation of a number denotes that number.
pub proof fn value_of_decimal(n: nat)
    ensures
        value(decimal(n)) == n,
    decreases n,
{
    if n < 10 {
        assert(decimal(n).drop_last() =~= Seq::<char>::empty());
        reveal_with_fuel(value, 2);
    } else {
        value_of_decimal(n / 10);
        assert(decimal(n).drop_last() =~= decimal(n / 10));
    }
}

/// Reading back the decimal notation of a 64-bit number gives the number.
pub proof fn parsed_inverts_decimal(n: u64)
    ensures
        parsed(decimal(n as nat)) == Some(n),
{
    decimal_is_numeral(n as nat);
    value_of_decimal(n as nat);
    assert(is_digit(decimal(n as nat)[0]));
}

/// Two numbers with the same decimal notation are equal.
pub proof fn decimal_is_injective(a: nat, b: nat)
    requires
        decimal(a) == decimal(b),
    ensures
        a == b,
{
    value_of_decimal(a);
    value_of_decimal(b);
}

/// The padded notation has the given width and is made of digits.
pub proof fn padded_shape(n: nat, width: nat)
    ensures
        padded(n, width).len() == width,
        forall|i: int| 0 <= i < width ==> is_digit(#[trigger] padded(n, width)[i]),
    decreases width,
{
    if width > 0 {
        padded_shape(n / 10, (width - 1) as nat);
    }
}

/// Numbers are written without zeros in front, and in as many digits as they need.
pub proof fn decimal_has_no_leading_zero(n: nat)
    ensures
        n > 0 ==> decimal(n)[0] != '0',
        n == 0 ==> decimal(n) == seq!['0'],
        n < 10 <==> decimal(n).len() == 1,
    decreases n,
{
    if n >= 10 {
        decimal_has_no_leading_zero(n / 10);
        assert(decimal(n)[0] == decimal(n / 10)[0]);
    }
}

/// A number that is written is read back, with or without a plus sign.
pub proof fn written_number_is_read_back(
    n: u64,
    written: String,
    text: &str,
    read: Option<u64>,
)
    requires
        call_ensures(format_u64, (n,), written),
        call_ensures(parse_u64, (text,), read),
        text@ == written@ || text@ == seq!['+'] + written@,
    ensures
        read == Some(n),
        is_numeral(written@),
        n > 0 ==> written@[0] != '0',
{
    parsed_inverts_decimal(n);
    decimal_is_numeral(n as nat);
    decimal_has_no_leading_zero(n as nat);
    let digits = decimal(n as nat);
    assert(is_digit(digits[0]));
    if text@ != written@ {
        assert(unsigned_part(text@) =~= digits);
        value_of_decimal(n as nat);
    }
}

/// Only digits are read as a number, and only numbers of 64 bits.
pub proof fn only_numerals_are_read(text: &str, read: Option<u64>, i: int)
    requires
        call_ensures(parse_u64, (text,), read),
    ensures
        text@.len() == 0 ==> read is None,
        1 <= i < text@.len() && !('0' <= text@[i] <= '9') ==> read is None,
        text@.len() > 0 && text@[0] != '+' && !('0' <= text@[0] <= '9') ==> read is None,
        read matches Some(n) ==> {
            &&& n == value(text@) || (text@[0] == '+' && n == value(text@.skip(1)))
        },
{
    let digits = unsigned_part(text@);
    if is_numeral(digits) {
        if 1 <= i < text@.len() {
            if text@[0] == '+' {
                assert(is_digit(digits[i - 1]));
            } else {
                assert(is_digit(digits[i]));
            }
        }
        assert(is_digit(digits[0]));
    }
}

/// One more digit behind a number makes it ten times as large, and adds the digit.
pub proof fn digits_count_by_place(text: Seq<char>, last: char)
    requires
        '0' <= last <= '9',
    ensures
        value(text.push(last)) == 10 * value(text) + (last as int - '0' as int),
        value(Seq::<char>::empty()) == 0,
{
    assert(text.push(last).drop_last() =~= text);
}

} // verus!
