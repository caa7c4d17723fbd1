//! The part of a file that a request asks for.
use vstd::prelude::*;

use crate::decimal;
use crate::text;

verus! {

/// The bytes from `start` to `end`, both included.
#[derive(Clone, Copy, Debug, PartialEq, Eq, Structural)]
pub struct RequestedRange {
    pub start: u64,
    pub end: u64,
}

/// The header names no range, or none that lies in the file.
#[derive(Clone, Copy, Debug, PartialEq, Eq, Structural)]
pub struct InvalidRange;

/// The value of the `Content-Range` header for a range of a file.
pub open spec fn content_range_text(start: nat, end: nat, total: nat) -> Seq<char> {
    "bytes "@ + decimal::decimal(start) + "-"@ + decimal::decimal(end) + "/"@ + decimal::decimal(
        total,
    )
}

impl RequestedRange {
    /// The range lies in a file of `total` bytes.
    pub open spec fn within(self, total: u64) -> bool {
        self.start <= self.end < total
    }

    /// The number of bytes in the range.
    pub fn len(self) -> (res: u64)
        requires
            self.start <= self.end,
            self.end - self.start < u64::MAX,
        ensures
            res == self.end - self.start + 1,
    {
        self.end - self.start + 1
    }

    /// The value of the `Content-Range` header for this range of a file of `total` bytes.
    pub fn content_range(self, total: u64) -> (res: String)
        ensures
            res@ == content_range_text(self.start as nat, self.end as nat, total as nat),
    {
        let mut out = "bytes ".to_string();
        out.append(decimal::format_u64(self.start).as_str());
        out.append("-");
        out.append(decimal::format_u64(self.end).as_str());
        out.append("/");
        out.append(decimal::format_u64(total).as_str());
        out
    }
}

/// The last `count` bytes of a file, all of it where it is shorter.
pub open spec fn suffix_range(count: u64, total: u64) -> RequestedRange {
    RequestedRange {
        start: if count < total {
            (total - count) as u64
        } else {
            0
        },
        end: (total - 1) as u64,
    }
}

/// The range of a file of `total` bytes between a first position and an optional last one,
/// each given as text; a last position behind the end means the end.
pub open spec fn bounded_range(first: Seq<char>, last: Seq<char>, total: u64) -> Option<
    RequestedRange,
> {
    match decimal::parsed(first) {
        None => None,
        Some(start) => if start >= total {
            None
        } else if last.len() == 0 {
            Some(RequestedRange { start, end: (total - 1) as u64 })
        } else {
            match decimal::parsed(last) {
                None => None,
                Some(end) => if end < start {
                    None
                } else if end < total {
                    Some(RequestedRange { start, end })
                } else {
                    Some(RequestedRange { start, end: (total - 1) as u64 })
                },
            }
        },
    }
}

/// The range that the part of a header behind the unit asks for.
pub open spec fn range_of_bounds(bounds: Seq<char>, total: u64) -> Option<RequestedRange> {
    match bounds.index_of_first('-') {
        None => None,
        Some(at) => {
            let first = bounds.take(at);
            let last = bounds.skip(at + 1);
            if first.len() == 0 {
                match decimal::parsed(last) {
                    None => None,
                    Some(count) => if count == 0 {
                        None
                    } else {
                        Some(suffix_range(count, total))
                    },
                }
            } else {
                bounded_range(first, last, total)
            }
        },
    }
}

/// The one range of a file of `total` bytes that a `Range` header asks for; none where the
/// unit is not bytes, where it lists several ranges, or where no byte of the file is meant.
pub open spec fn range_of_header(header: Seq<char>, total: u64) -> Option<RequestedRange> {
    if total == 0 || !text::starts_with(header, "bytes="@) {
        None
    } else {
        let bounds = header.skip("bytes="@.len() as int);
        if bounds.contains(',') {
            None
        } else {
            range_of_bounds(bounds, total)
        }
    }
}

/// The range of a file of `total` bytes that a `Range` header asks for.
pub fn parse_range_header(value: &str, total: u64) -> (res: Result<RequestedRange, InvalidRange>)
    ensures
        match range_of_header(value@, total) {
            Some(range) => res == Ok::<RequestedRange, InvalidRange>(range),
            None => res is Err,
        },
        res matches Ok(range) ==> range.within(total),
{
    proof {
        reveal_strlit("bytes=");
    }
    if total == 0 {
        return Err(InvalidRange);
    }
    if !text::has_prefix(value, "bytes=") {
        return Err(InvalidRange);
    }
    let bounds = text::drop_front(value, 6);
    if text::has_char(bounds.as_str(), ',') {
        return Err(InvalidRange);
    }
    let (first, last) = match text::split_once(bounds.as_str(), '-') {
        Some(parts) => parts,
        None => return Err(InvalidRange),
    };
    if first.as_str().is_empty() {
        let count: u64 = match decimal::parse_u64(last.as_str()) {
            Some(count) => count,
            None => return Err(InvalidRange),
        };
        if count == 0 {
            return Err(InvalidRange);
        }
        let bounded: u64 = if count < total { count } else { total };
        return Ok(RequestedRange { start: total - bounded, end: total - 1 });
    }
    let start: u64 = match decimal::parse_u64(first.as_str()) {
        Some(start) => start,
        None => return Err(InvalidRange),
    };
    if start >= total {
        return Err(InvalidRange);
    }
    let end: u64 = if last.as_str().is_empty() {
        total - 1
    } else {
        match decimal::parse_u64(last.as_str()) {
            Some(end) => if end < total - 1 { end } else { total - 1 },
            None => return Err(InvalidRange),
        }
    };
    if end < start {
        return Err(InvalidRange);
    }
    Ok(RequestedRange { start, end })
}

/// The `Range` header that asks for the bytes from `start` to `end`.
pub open spec fn range_header(start: u64, end: u64) -> Seq<char> {
    "bytes="@ + decimal::decimal(start as nat) + "-"@ + decimal::decimal(end as nat)
}

/// The `Range` header that asks for everything from `start` on.
pub open spec fn resume_header(start: u64) -> Seq<char> {
    "bytes="@ + decimal::decimal(start as nat) + "-"@
}

/// The `Range` header that asks for the last `count` bytes.
pub open spec fn suffix_header(count: u64) -> Seq<char> {
    "bytes=-"@ + decimal::decimal(count as nat)
}

pub(crate) proof fn lemma_split_header(first: Seq<char>, last: Seq<char>, total: u64)
    requires
        forall|i: int| 0 <= i < first.len() ==> decimal::is_digit(#[trigger] first[i]),
        forall|i: int| 0 <= i < last.len() ==> decimal::is_digit(#[trigger] last[i]),
        total > 0,
    ensures
        range_of_header("bytes="@ + first + "-"@ + last, total) == (if first.len() == 0 {
            match decimal::parsed(last) {
                None => None,
                Some(count) => if count == 0 {
                    None
                } else {
                    Some(suffix_range(count, total))
                },
            }
        } else {
            bounded_range(first, last, total)
        }),
{
    reveal_strlit("bytes=");
    reveal_strlit("-");
    let header = "bytes="@ + first + "-"@ + last;
    let bounds = header.skip(6);
    assert(header.subrange(0, 6) =~= "bytes="@);
    assert(bounds =~= first + "-"@ + last);
    assert forall|i: int| 0 <= i < bounds.len() implies bounds[i] != ',' by {
        if i < first.len() {
            assert(bounds[i] == first[i]);
        } else if i > first.len() {
            assert(bounds[i] == last[i - first.len() - 1]);
        }
    }
    assert(bounds[first.len() as int] == '-');
    bounds.index_of_first_ensures('-');
    let at = bounds.index_of_first('-').unwrap();
    if at < first.len() {
        assert(bounds[at] == first[at]);
    }
    assert(at == first.len());
    assert(bounds.take(at) =~= first);
    assert(bounds.skip(at + 1) =~= last);
}

/// Whatever the header says, a range that is granted lies in the file.
pub proof fn granted_range_lies_in_file(header: Seq<char>, total: u64)
    ensures
        range_of_header(header, total) matches Some(range) ==> range.within(total),
{
}

/// A range of the file that is asked for by its first and last position is granted as asked.
pub proof fn range_in_file_is_granted(start: u64, end: u64, total: u64)
    requires
        start <= end < total,
    ensures
        range_of_header(range_header(start, end), total) == Some(RequestedRange { start, end }),
{
    decimal::parsed_inverts_decimal(start);
    decimal::parsed_inverts_decimal(end);
    decimal::decimal_is_numeral(start as nat);
    decimal::decimal_is_numeral(end as nat);
    lemma_split_header(decimal::decimal(start as nat), decimal::decimal(end as nat), total);
}

/// A download that broke off after `start` bytes can be resumed: everything from there to the
/// last byte of the file is granted.
pub proof fn interrupted_download_resumes(start: u64, total: u64)
    requires
        start < total,
    ensures
        range_of_header(resume_header(start), total) == Some(
            RequestedRange { start, end: (total - 1) as u64 },
        ),
{
    decimal::parsed_inverts_decimal(start);
    decimal::decimal_is_numeral(start as nat);
    lemma_split_header(decimal::decimal(start as nat), Seq::empty(), total);
    assert("bytes="@ + decimal::decimal(start as nat) + "-"@ + Seq::<char>::empty()
        =~= resume_header(start));
}

/// Asking for the last `count` bytes grants that many, or the whole file where it is shorter.
pub proof fn suffix_is_granted(count: u64, total: u64)
    requires
        count > 0,
        total > 0,
    ensures
        range_of_header(suffix_header(count), total) == Some(suffix_range(count, total)),
        suffix_range(count, total).end - suffix_range(count, total).start + 1 == (if count < total {
            count
        } else {
            total
        }),
{
    decimal::parsed_inverts_decimal(count);
    decimal::decimal_is_numeral(count as nat);
    lemma_split_header(Seq::empty(), decimal::decimal(count as nat), total);
    reveal_strlit("bytes=-");
    reveal_strlit("bytes=");
    reveal_strlit("-");
    assert("bytes="@ + Seq::<char>::empty() + "-"@ + decimal::decimal(count as nat)
        =~= suffix_header(count));
}

/// A range that starts behind the end of the file is refused.
pub proof fn range_behind_end_is_refused(start: u64, end: u64, total: u64)
    requires
        total <= start,
        start <= end,
    ensures
        range_of_header(range_header(start, end), total) is None,
{
    if total > 0 {
        decimal::parsed_inverts_decimal(start);
        decimal::decimal_is_numeral(start as nat);
        decimal::decimal_is_numeral(end as nat);
        lemma_split_header(decimal::decimal(start as nat), decimal::decimal(end as nat), total);
    }
}

/// Of an empty file no range is granted.
pub proof fn empty_file_has_no_range(header: Seq<char>)
    ensures
        range_of_header(header, 0) is None,
{
}

} // verus!
