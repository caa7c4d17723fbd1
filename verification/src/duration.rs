//! Lengths of time, points in time, and how a length of time is read and shown.
use vstd::prelude::*;

use crate::decimal;
use crate::text;

verus! {

pub const NANOS_PER_SEC: u32 = 1_000_000_000;

/// A length of time in seconds and nanoseconds.
#[derive(Clone, Copy, Debug, PartialEq, Eq, Structural)]
pub struct Duration {
    pub secs: u64,
    pub nanos: u32,
}

/// A point in time, in nanoseconds since the start of 1970 (UTC).
#[derive(Clone, Copy, Debug, PartialEq, Eq, Structural)]
pub struct Timestamp {
    pub nanos: i128,
}

impl Duration {
    /// The part below a second is shorter than a second.
    pub open spec fn well_formed(self) -> bool {
        self.nanos < NANOS_PER_SEC
    }

    /// The length in nanoseconds.
    pub open spec fn total(self) -> nat {
        self.secs as nat * 1_000_000_000 + self.nanos as nat
    }

    pub fn from_secs(secs: u64) -> (res: Duration)
        ensures
            res == (Duration { secs, nanos: 0 }),
    {
        Duration { secs, nanos: 0 }
    }

    pub fn as_secs(&self) -> (res: u64)
        ensures
            res == self.secs,
    {
        self.secs
    }

    pub fn is_zero(&self) -> (res: bool)
        ensures
            res == (self.total() == 0),
    {
        self.secs == 0 && self.nanos == 0
    }
}

impl Timestamp {
    /// The clock shows a time whose distance from 1970 has a 64-bit number of seconds.
    pub open spec fn on_clock(self) -> bool {
        &&& -18_446_744_073_709_551_616_000_000_000 < self.nanos
        &&& self.nanos < 18_446_744_073_709_551_616_000_000_000
    }

    /// The whole seconds since 1970, zero for an earlier time.
    pub open spec fn unix_secs(self) -> int {
        if self.nanos < 0 {
            0
        } else {
            self.nanos as int / 1_000_000_000
        }
    }

    /// The point in time `ttl` later.
    pub fn after(&self, ttl: Duration) -> (res: Timestamp)
        requires
            self.nanos + ttl.total() <= i128::MAX,
        ensures
            res.nanos == self.nanos + ttl.total(),
    {
        Timestamp { nanos: self.nanos + (ttl.secs as i128 * 1_000_000_000 + ttl.nanos as i128) }
    }
}

/// The time from `now` to `deadline`: nothing once the deadline has passed, and the longest
/// duration there is where the distance is longer than that.
pub open spec fn time_left(deadline: Timestamp, now: Timestamp) -> Duration {
    let distance = deadline.nanos - now.nanos;
    if distance <= 0 {
        Duration { secs: 0, nanos: 0 }
    } else if distance / 1_000_000_000 > u64::MAX {
        Duration { secs: u64::MAX, nanos: 999_999_999 }
    } else {
        Duration {
            secs: (distance / 1_000_000_000) as u64,
            nanos: (distance % 1_000_000_000) as u32,
        }
    }
}

/// What `humantime::parse_duration` makes of a text: the seconds and nanoseconds, or the
/// text of its error.
pub uninterp spec fn humantime_duration(text: Seq<char>) -> Result<(u64, u32), Seq<char>>;

/// `c` can stand in the name of a unit.
pub open spec fn is_unit_char(c: char) -> bool {
    'a' <= c <= 'z' || 'A' <= c <= 'Z' || c == '\u{b5}'
}

/// The name of a unit below a second.
pub open spec fn is_subsecond_unit(name: Seq<char>) -> bool {
    ||| name == "ns"@
    ||| name == "nsec"@
    ||| name == "nanos"@
    ||| name == "us"@
    ||| name == "usec"@
    ||| name == "\u{b5}s"@
    ||| name == "ms"@
    ||| name == "msec"@
    ||| name == "millis"@
}

/// The position of the first unit character from `i` on, the length where there is none.
pub open spec fn unit_start(text: Seq<char>, i: int) -> int
    decreases text.len() - i,
{
    if i >= text.len() {
        text.len() as int
    } else if is_unit_char(text[i]) {
        i
    } else {
        unit_start(text, i + 1)
    }
}

/// The position behind the run of unit characters that begins at `i`.
pub open spec fn unit_end(text: Seq<char>, i: int) -> int
    decreases text.len() - i,
{
    if i >= text.len() || !is_unit_char(text[i]) {
        i
    } else {
        unit_end(text, i + 1)
    }
}

/// The next unit from `i` on is one below a second.
pub open spec fn counts_subseconds(text: Seq<char>, i: int) -> bool {
    let start = unit_start(text, i);
    is_subsecond_unit(text.subrange(start, unit_end(text, start)))
}

/// The digits at `i` stand behind a decimal point: between the last unit before them and `i`
/// there is one.
pub open spec fn behind_point(text: Seq<char>, i: int) -> bool
    decreases i,
{
    if i <= 0 || i > text.len() {
        false
    } else if text[i - 1] == '.' {
        true
    } else {
        !is_unit_char(text[i - 1]) && behind_point(text, i - 1)
    }
}

/// The digit at `i` counts whole units, each of a second or more.
pub open spec fn is_coarse_digit(text: Seq<char>, i: int) -> bool {
    &&& decimal::is_digit(text[i])
    &&& !behind_point(text, i)
    &&& !counts_subseconds(text, i)
}

/// The number of digits from `i` on that count whole units, each of a second or more.
pub open spec fn coarse_digits(text: Seq<char>, i: int) -> nat
    decreases text.len() - i,
{
    if i >= text.len() {
        0
    } else {
        coarse_digits(text, i + 1) + if is_coarse_digit(text, i) {
            1nat
        } else {
            0nat
        }
    }
}

/// The text holds a decimal point, or a digit that counts units below a second.
pub open spec fn names_subseconds(text: Seq<char>) -> bool {
    ||| text.contains('.')
    ||| exists|i: int|
        0 <= i < text.len() && decimal::is_digit(text[i]) && #[trigger] counts_subseconds(text, i)
}

/// The longest text of which only the digits are looked at.
pub const LONG_TEXT: usize = 1_000_000_000;

/// The text is short of the one sum that `humantime` cannot carry over, the largest number
/// of seconds and a full second of nanoseconds. Without a part below a second there is
/// nothing to carry. With fewer than twelve digits of whole seconds or larger units no text
/// reaches that many seconds: eleven digits of years come to less than a fifth of them, each
/// number of smaller units to less than twenty billion, and each fraction to less than a year.
pub open spec fn within_humantime(text: Seq<char>) -> bool {
    !names_subseconds(text) || (coarse_digits(text, 0) < 12 && text.len() <= LONG_TEXT)
}

/// The seconds of a unit.
pub open spec fn unit_secs(unit: char) -> nat {
    if unit == 'd' {
        86_400
    } else if unit == 'h' {
        3_600
    } else if unit == 'm' {
        60
    } else {
        1
    }
}

/// `c` stands for days, hours, minutes or seconds.
pub open spec fn is_short_unit(c: char) -> bool {
    c == 'd' || c == 'h' || c == 'm' || c == 's'
}

/// A span of time: so many days, hours, minutes or seconds.
#[derive(Clone, Copy, Debug)]
pub struct Span {
    pub count: u64,
    pub unit: char,
}

/// How a span of time is written.
pub open spec fn span_text(span: Span) -> Seq<char> {
    decimal::decimal(span.count as nat).push(span.unit)
}

/// The units of the spans of time are days, hours, minutes or seconds.
pub open spec fn have_short_units(spans: Seq<Span>) -> bool {
    forall|i: int| 0 <= i < spans.len() ==> is_short_unit((#[trigger] spans[i]).unit)
}

/// At least one span of time, of days, hours, minutes or seconds, with a sum that fits.
pub open spec fn are_short_spans(spans: Seq<Span>) -> bool {
    &&& spans.len() > 0
    &&& have_short_units(spans)
    &&& spans_secs(spans) <= u64::MAX
}

/// Spans of time, written one after the other with a space between them.
pub open spec fn spans_text(spans: Seq<Span>) -> Seq<char> {
    text::joined(
        spans.map_values(|span: Span| span_text(span)),
        " "@,
    )
}

/// The seconds of spans of time together.
pub open spec fn spans_secs(spans: Seq<Span>) -> nat
    decreases spans.len(),
{
    if spans.len() == 0 {
        0
    } else {
        spans_secs(spans.drop_last()) + spans.last().count as nat * unit_secs(spans.last().unit)
    }
}

/// Trusted: `humantime::parse_duration`. Its result depends on the text alone; a duration is
/// handed over as its seconds and nanoseconds, the nanoseconds below a second, an error as
/// its text. Of spans of days, hours, minutes and seconds with a space between them it gives
/// the sum, as long as that fits. It panics where a full second of nanoseconds meets the
/// largest number of seconds, which `within_humantime` leaves out.
#[verifier::external_body]
fn humantime_parse(input: &str) -> (res: Result<Duration, String>)
    requires
        within_humantime(input@),
    ensures
        match humantime_duration(input@) {
            Ok((secs, nanos)) => res == Ok::<Duration, String>((Duration { secs, nanos })),
            Err(message) => res is Err && res->Err_0@ == message,
        },
        res matches Ok(duration) ==> duration.well_formed(),
        forall|spans: Seq<Span>|
            are_short_spans(spans) && input@ == #[trigger] spans_text(spans) ==> res is Ok
                && res->Ok_0.secs == spans_secs(spans) && res->Ok_0.nanos == 0,
{
    match humantime::parse_duration(input) {
        Ok(duration) => Ok(Duration { secs: duration.as_secs(), nanos: duration.subsec_nanos() }),
        Err(error) => Err(error.to_string()),
    }
}

/// Trusted: `SystemTime::now`. Nothing is known of the reading but that its distance from
/// 1970 is a duration, forward (`Ok`) or backward (`Err`), with less than a second of
/// nanoseconds.
#[verifier::external_body]
fn clock_reading() -> (res: Result<Duration, Duration>)
    ensures
        res matches Ok(since) ==> since.well_formed(),
        res matches Err(before) ==> before.well_formed(),
{
    match std::time::SystemTime::now().duration_since(std::time::UNIX_EPOCH) {
        Ok(since) => Ok(Duration { secs: since.as_secs(), nanos: since.subsec_nanos() }),
        Err(error) => Err(
            Duration { secs: error.duration().as_secs(), nanos: error.duration().subsec_nanos() },
        ),
    }
}

/// The point in time at a distance from 1970, forward (`Ok`) or backward (`Err`).
pub fn timestamp_at(reading: Result<Duration, Duration>) -> (res: Timestamp)
    requires
        reading matches Ok(since) ==> since.well_formed(),
        reading matches Err(before) ==> before.well_formed(),
    ensures
        res.on_clock(),
        res.nanos == (match reading {
            Ok(since) => since.total() as int,
            Err(before) => -(before.total() as int),
        }),
{
    match reading {
        Ok(since) => Timestamp { nanos: since.secs as i128 * 1_000_000_000 + since.nanos as i128 },
        Err(before) => Timestamp {
            nanos: -(before.secs as i128 * 1_000_000_000 + before.nanos as i128),
        },
    }
}

/// The point in time that the clock shows.
pub fn now() -> (res: Timestamp)
    ensures
        res.on_clock(),
{
    timestamp_at(clock_reading())
}

/// The whole seconds since 1970 at `time`, zero for an earlier time.
pub fn unix_secs_at(time: Timestamp) -> (res: u128)
    ensures
        res == time.unix_secs(),
{
    if time.nanos < 0 {
        0
    } else {
        time.nanos as u128 / 1_000_000_000
    }
}

/// The whole seconds since 1970 that the clock shows, zero for an earlier time.
pub fn unix_now() -> (res: u64)
    ensures
        exists|now: Timestamp| now.on_clock() && res == #[trigger] now.unix_secs(),
{
    let now = now();
    unix_secs_at(now) as u64
}

/// The time from `now` to `deadline`.
pub fn remaining_between(deadline: Timestamp, now: Timestamp) -> (res: Duration)
    ensures
        res == time_left(deadline, now),
        res.well_formed(),
{
    if deadline.nanos <= now.nanos {
        return Duration { secs: 0, nanos: 0 };
    }
    match deadline.nanos.checked_sub(now.nanos) {
        Some(distance) => {
            let secs: i128 = distance / 1_000_000_000;
            if secs > u64::MAX as i128 {
                Duration { secs: u64::MAX, nanos: 999_999_999 }
            } else {
                Duration { secs: secs as u64, nanos: (distance % 1_000_000_000) as u32 }
            }
        },
        None => Duration { secs: u64::MAX, nanos: 999_999_999 },
    }
}

/// The time that is left until `deadline` by the clock: of every reading, what
/// `remaining_between` gives for it.
pub fn remaining_until(deadline: Timestamp) -> (res: Duration)
    ensures
        exists|now: Timestamp| now.on_clock() && res == #[trigger] time_left(deadline, now),
        res.well_formed(),
{
    let now = now();
    remaining_between(deadline, now)
}

fn is_subsecond_name(name: &str) -> (res: bool)
    ensures
        res == is_subsecond_unit(name@),
{
    text::same(name, "ns") || text::same(name, "nsec") || text::same(name, "nanos") || text::same(
        name,
        "us",
    ) || text::same(name, "usec") || text::same(name, "\u{b5}s") || text::same(name, "ms")
        || text::same(name, "msec") || text::same(name, "millis")
}

/// Whether `parse_duration_value` can read the text.
pub fn readable_duration(input: &str) -> (res: bool)
    ensures
        res == within_humantime(input@),
{
    let chars = text::chars_of(input);
    let mut named = text::has_char(input, '.');
    let ghost all = input@;
    let mut fraction: Vec<bool> = Vec::new();
    let mut point = false;
    let mut k: usize = 0;
    while k < chars.len()
        invariant
            chars@ == all,
            k <= chars@.len(),
            point == behind_point(all, k as int),
            fraction@.len() == k,
            forall|j: int| 0 <= j < k ==> #[trigger] fraction@[j] == behind_point(all, j),
        decreases chars@.len() - k,
    {
        fraction.push(point);
        let c = chars[k];
        if c == '.' {
            point = true;
        } else if ('a' <= c && c <= 'z') || ('A' <= c && c <= 'Z') || c == '\u{b5}' {
            point = false;
        }
        k = k + 1;
    }
    let mut digits: usize = 0;
    let mut end: usize = chars.len();
    let mut fine = false;
    let mut i: usize = chars.len();
    proof {
        assert(all.subrange(all.len() as int, all.len() as int) =~= Seq::<char>::empty());
        reveal_strlit("ns");
        reveal_strlit("nsec");
        reveal_strlit("nanos");
        reveal_strlit("us");
        reveal_strlit("usec");
        reveal_strlit("\u{b5}s");
        reveal_strlit("ms");
        reveal_strlit("msec");
        reveal_strlit("millis");
    }
    while i > 0
        invariant
            chars@ == all,
            fraction@.len() == chars@.len(),
            forall|j: int|
                0 <= j < chars@.len() ==> #[trigger] fraction@[j] == behind_point(all, j),
            i <= chars@.len(),
            end == unit_end(all, i as int),
            i <= end <= chars@.len(),
            fine == counts_subseconds(all, i as int),
            digits == coarse_digits(all, i as int),
            digits <= chars@.len() - i,
            named == (all.contains('.') || exists|j: int|
                i <= j < all.len() && decimal::is_digit(all[j]) && #[trigger] counts_subseconds(
                    all,
                    j,
                )),
        decreases i,
    {
        let ghost last = i as int;
        i = i - 1;
        let c = chars[i];
        if ('a' <= c && c <= 'z') || ('A' <= c && c <= 'Z') || c == '\u{b5}' {
            let name = text::string_of(&chars, i, end);
            fine = is_subsecond_name(name.as_str());
            proof {
                assert(unit_start(all, i as int) == i);
                assert(unit_end(all, i as int) == unit_end(all, last));
                assert(name@ == all.subrange(i as int, end as int));
            }
        } else {
            end = i;
            proof {
                assert(unit_start(all, i as int) == unit_start(all, last));
            }
            if '0' <= c && c <= '9' {
                assert(fine == counts_subseconds(all, i as int));
                if fine {
                    named = true;
                } else if !fraction[i] {
                    assert(digits < chars@.len());
                    digits = digits + 1;
                }
            }
        }
    }
    !named || (digits < 12 && chars.len() <= LONG_TEXT)
}

/// Reads a duration such as `15m` or `2h 30m`. Of a number of seconds as `format_duration`
/// shows it, reading gives that number back.
pub fn parse_duration_value(input: &str) -> (res: Result<Duration, String>)
    requires
        within_humantime(input@),
    ensures
        match humantime_duration(input@) {
            Ok((secs, nanos)) => res == Ok::<Duration, String>((Duration { secs, nanos })),
            Err(message) => res is Err && res->Err_0@ == message,
        },
        res matches Ok(duration) ==> duration.well_formed(),
        forall|secs: u64|
            input@ == #[trigger] duration_text((Duration { secs, nanos: 0 })) ==> res == Ok::<
                Duration,
                String,
            >((Duration { secs, nanos: 0 })),
{
    let res = humantime_parse(input);
    proof {
        assert forall|secs: u64|
            input@ == #[trigger] duration_text((Duration { secs, nanos: 0 })) implies res == Ok::<
            Duration,
            String,
        >((Duration { secs, nanos: 0 })) by {
            let spans = shown_spans(secs);
            lemma_shown_spans(secs);
            assert(input@ == spans_text(spans));
            assert(are_short_spans(spans));
        }
    }
    res
}

/// One unit of a shown duration; nothing where the count is zero.
pub open spec fn unit_part(count: nat, unit: Seq<char>) -> Seq<Seq<char>> {
    if count > 0 {
        seq![decimal::decimal(count) + unit]
    } else {
        Seq::empty()
    }
}

/// The days, hours, minutes and seconds of a number of seconds.
pub open spec fn days_part(secs: nat) -> nat {
    secs / 86_400
}

pub open spec fn hours_part(secs: nat) -> nat {
    secs % 86_400 / 3_600
}

pub open spec fn minutes_part(secs: nat) -> nat {
    secs % 3_600 / 60
}

pub open spec fn seconds_part(secs: nat) -> nat {
    secs % 60
}

/// The units of a number of seconds that are not zero, from days to seconds.
pub open spec fn duration_parts(secs: nat) -> Seq<Seq<char>> {
    unit_part(days_part(secs), "d"@) + unit_part(hours_part(secs), "h"@) + unit_part(
        minutes_part(secs),
        "m"@,
    ) + unit_part(seconds_part(secs), "s"@)
}

/// How a duration is shown: its units, separated by spaces, `0s` for no time at all.
pub open spec fn duration_text(duration: Duration) -> Seq<char> {
    if duration.total() == 0 {
        "0s"@
    } else {
        text::joined(duration_parts(duration.secs as nat), " "@)
    }
}

fn push_unit(parts: &mut Vec<String>, count: u64, unit: &str)
    ensures
        text::views(final(parts)@) == text::views(old(parts)@) + unit_part(count as nat, unit@),
{
    if count > 0 {
        let mut part = decimal::format_u64(count);
        part.append(unit);
        let ghost before = parts@;
        parts.push(part);
        assert(text::views(parts@) =~= text::views(before) + unit_part(count as nat, unit@));
    } else {
        assert(text::views(parts@) =~= text::views(parts@) + unit_part(count as nat, unit@));
    }
}

/// Shows a duration in days, hours, minutes and seconds.
pub fn format_duration(duration: Duration) -> (res: String)
    ensures
        res@ == duration_text(duration),
{
    if duration.is_zero() {
        return "0s".to_string();
    }
    let total: u64 = duration.as_secs();
    let days: u64 = total / 86_400;
    let hours: u64 = total % 86_400 / 3_600;
    let minutes: u64 = total % 3_600 / 60;
    let seconds: u64 = total % 60;
    let mut parts: Vec<String> = Vec::new();
    assert(text::views(parts@) =~= Seq::<Seq<char>>::empty());
    push_unit(&mut parts, days, "d");
    push_unit(&mut parts, hours, "h");
    push_unit(&mut parts, minutes, "m");
    push_unit(&mut parts, seconds, "s");
    assert(text::views(parts@) =~= duration_parts(total as nat));
    text::join(&parts, " ")
}

/// The units of a duration add up to its seconds, and none but the days overflows into the
/// next larger one.
pub proof fn duration_units_add_up(secs: nat)
    ensures
        days_part(secs) * 86_400 + hours_part(secs) * 3_600 + minutes_part(secs) * 60
            + seconds_part(secs) == secs,
        hours_part(secs) < 24,
        minutes_part(secs) < 60,
        seconds_part(secs) < 60,
{
    vstd::arithmetic::div_mod::lemma_mod_mod(secs as int, 3_600, 24);
    vstd::arithmetic::div_mod::lemma_mod_mod(secs as int, 60, 60);
    let of_day = secs % 86_400;
    let of_hour = secs % 3_600;
    assert(of_day % 3_600 == of_hour);
    assert(of_hour % 60 == secs % 60);
}

/// One span of time; nothing where the count is zero.
spec fn unit_span(count: nat, unit: char) -> Seq<Span> {
    if count > 0 {
        seq![Span { count: count as u64, unit }]
    } else {
        Seq::empty()
    }
}

/// The spans of time as which a number of seconds is shown.
spec fn shown_spans(secs: u64) -> Seq<Span> {
    if secs == 0 {
        seq![Span { count: 0, unit: 's' }]
    } else {
        unit_span(days_part(secs as nat), 'd') + unit_span(hours_part(secs as nat), 'h')
            + unit_span(minutes_part(secs as nat), 'm') + unit_span(seconds_part(secs as nat), 's')
    }
}

proof fn lemma_spans_secs_add(a: Seq<Span>, b: Seq<Span>)
    ensures
        spans_secs(a + b) == spans_secs(a) + spans_secs(b),
    decreases b.len(),
{
    if b.len() == 0 {
        assert(a + b =~= a);
    } else {
        lemma_spans_secs_add(a, b.drop_last());
        assert((a + b).drop_last() =~= a + b.drop_last());
    }
}

proof fn lemma_unit_span(count: nat, unit: char)
    requires
        count <= u64::MAX,
    ensures
        spans_secs(unit_span(count, unit)) == count * unit_secs(unit),
{
    if count > 0 {
        let spans = unit_span(count, unit);
        assert(spans.drop_last() =~= Seq::<Span>::empty());
        assert(spans_secs(spans.drop_last()) == 0);
    }
}

proof fn lemma_shown_spans(secs: u64)
    ensures
        spans_text(shown_spans(secs)) == duration_text((Duration { secs, nanos: 0 })),
        spans_secs(shown_spans(secs)) == secs,
        shown_spans(secs).len() > 0,
        have_short_units(shown_spans(secs)),
{
    let written = |span: Span| span_text(span);
    let spans = shown_spans(secs);
    reveal_strlit("0s");
    reveal_strlit("d");
    reveal_strlit("h");
    reveal_strlit("m");
    reveal_strlit("s");
    if secs == 0 {
        assert(spans.map_values(written)[0] =~= "0s"@);
        assert(spans.drop_last() =~= Seq::<Span>::empty());
        assert(spans_secs(spans.drop_last()) == 0);
    } else {
        let days = unit_span(days_part(secs as nat), 'd');
        let hours = unit_span(hours_part(secs as nat), 'h');
        let minutes = unit_span(minutes_part(secs as nat), 'm');
        let seconds = unit_span(seconds_part(secs as nat), 's');
        duration_units_add_up(secs as nat);
        lemma_unit_span(days_part(secs as nat), 'd');
        lemma_unit_span(hours_part(secs as nat), 'h');
        lemma_unit_span(minutes_part(secs as nat), 'm');
        lemma_unit_span(seconds_part(secs as nat), 's');
        lemma_spans_secs_add(days + hours + minutes, seconds);
        lemma_spans_secs_add(days + hours, minutes);
        lemma_spans_secs_add(days, hours);
        assert("d"@ =~= seq!['d'] && "h"@ =~= seq!['h'] && "m"@ =~= seq!['m'] && "s"@ =~= seq!['s']);
        lemma_unit_written(days_part(secs as nat), 'd', "d"@);
        lemma_unit_written(hours_part(secs as nat), 'h', "h"@);
        lemma_unit_written(minutes_part(secs as nat), 'm', "m"@);
        lemma_unit_written(seconds_part(secs as nat), 's', "s"@);
        assert(spans.map_values(written) =~= days.map_values(written) + hours.map_values(written)
            + minutes.map_values(written) + seconds.map_values(written));
        if spans.len() == 0 {
            assert(spans_secs(spans) == 0);
        }
    }
}

proof fn lemma_unit_written(count: nat, unit: char, name: Seq<char>)
    requires
        count <= u64::MAX,
        name == seq![unit],
    ensures
        unit_span(count, unit).map_values(
            |span: Span| span_text(span),
        ) == unit_part(count, name),
{
    let written = |span: Span| span_text(span);
    if count > 0 {
        assert(unit_span(count, unit).map_values(written)[0] =~= decimal::decimal(count) + name);
    }
    assert(unit_span(count, unit).map_values(written) =~= unit_part(count, name));
}

/// The seconds of the spans that have ended in a text, and the count that has begun behind them.
spec fn read_back(text: Seq<char>) -> (nat, nat)
    decreases text.len(),
{
    if text.len() == 0 {
        (0, 0)
    } else {
        let (secs, count) = read_back(text.drop_last());
        let c = text.last();
        if decimal::is_digit(c) {
            (secs, count * 10 + (c as nat - 48) as nat)
        } else if is_short_unit(c) {
            (secs + count * unit_secs(c), 0)
        } else {
            (secs, count)
        }
    }
}

proof fn lemma_read_count(head: Seq<char>, n: nat)
    requires
        read_back(head).1 == 0,
    ensures
        read_back(head + decimal::decimal(n)) == (read_back(head).0, n),
    decreases n,
{
    let whole = head + decimal::decimal(n);
    if n < 10 {
        assert(whole.drop_last() =~= head);
    } else {
        lemma_read_count(head, n / 10);
        assert(whole.drop_last() =~= head + decimal::decimal(n / 10));
    }
}

proof fn lemma_read_spans(spans: Seq<Span>)
    requires
        have_short_units(spans),
    ensures
        read_back(spans_text(spans)) == (spans_secs(spans), 0nat),
    decreases spans.len(),
{
    let written = |span: Span| span_text(span);
    let parts = spans.map_values(written);
    if spans.len() > 0 {
        let before = spans.drop_last();
        let last = spans.last();
        let number = decimal::decimal(last.count as nat);
        lemma_read_spans(before);
        assert(parts.drop_last() =~= before.map_values(written));
        assert(parts.last() == number.push(last.unit));
        reveal_strlit(" ");
        let head = if before.len() == 0 {
            Seq::<char>::empty()
        } else {
            spans_text(before) + " "@
        };
        if before.len() > 0 {
            assert(head.drop_last() =~= spans_text(before));
        }
        lemma_read_count(head, last.count as nat);
        assert(spans_text(spans) =~= (head + number).push(last.unit));
        assert((head + number).push(last.unit).drop_last() =~= head + number);
    }
}

/// A duration is read back from how it is shown.
proof fn lemma_read_duration(duration: Duration)
    ensures
        read_back(duration_text(duration)).0 == duration.secs,
{
    let whole = Duration { secs: duration.secs, nanos: 0 };
    if duration.secs == 0 && duration.nanos > 0 {
        assert(duration_parts(0) =~= Seq::<Seq<char>>::empty());
    } else {
        assert(duration_text(duration) == duration_text(whole));
        lemma_shown_spans(duration.secs);
        lemma_read_spans(shown_spans(duration.secs));
    }
}

/// How a duration is shown fixes its whole seconds: two that are shown alike have the same.
pub proof fn shown_duration_fixes_seconds(a: Duration, b: Duration)
    requires
        duration_text(a) == duration_text(b),
    ensures
        a.secs == b.secs,
{
    lemma_read_duration(a);
    lemma_read_duration(b);
}

/// Digits, spaces and short units, each unit right behind a digit.
spec fn is_span_text(text: Seq<char>) -> bool {
    forall|i: int|
        0 <= i < text.len() ==> {
            ||| decimal::is_digit(#[trigger] text[i])
            ||| text[i] == ' '
            ||| is_short_unit(text[i]) && i > 0 && decimal::is_digit(text[i - 1])
        }
}

proof fn lemma_is_span_text(spans: Seq<Span>)
    requires
        have_short_units(spans),
    ensures
        is_span_text(spans_text(spans)),
    decreases spans.len(),
{
    let written = |span: Span| span_text(span);
    let parts = spans.map_values(written);
    if spans.len() > 0 {
        let before = spans.drop_last();
        let last = spans.last();
        let number = decimal::decimal(last.count as nat);
        lemma_is_span_text(before);
        decimal::decimal_is_numeral(last.count as nat);
        assert(parts.drop_last() =~= before.map_values(written));
        assert(parts.last() == number.push(last.unit));
        reveal_strlit(" ");
        let head = if before.len() == 0 {
            Seq::<char>::empty()
        } else {
            spans_text(before) + " "@
        };
        let whole = (head + number).push(last.unit);
        assert(spans_text(spans) =~= whole);
        assert forall|i: int| 0 <= i < whole.len() implies {
            ||| decimal::is_digit(#[trigger] whole[i])
            ||| whole[i] == ' '
            ||| is_short_unit(whole[i]) && i > 0 && decimal::is_digit(whole[i - 1])
        } by {
            if i < head.len() {
                assert(whole[i] == head[i]);
                if i < spans_text(before).len() && before.len() > 0 {
                    assert(whole[i] == spans_text(before)[i]);
                    if i > 0 {
                        assert(whole[i - 1] == spans_text(before)[i - 1]);
                    }
                }
            } else if i < head.len() + number.len() {
                assert(whole[i] == number[i - head.len()]);
            } else {
                assert(whole[i - 1] == number[number.len() - 1]);
            }
        }
    }
}

proof fn lemma_unit_start(text: Seq<char>, i: int)
    requires
        0 <= i <= text.len(),
    ensures
        i <= unit_start(text, i) <= text.len(),
        unit_start(text, i) < text.len() ==> is_unit_char(text[unit_start(text, i)]),
    decreases text.len() - i,
{
    if i < text.len() && !is_unit_char(text[i]) {
        lemma_unit_start(text, i + 1);
    }
}

proof fn lemma_no_subseconds(text: Seq<char>)
    requires
        is_span_text(text),
    ensures
        !names_subseconds(text),
{
    reveal_strlit("ns");
    reveal_strlit("nsec");
    reveal_strlit("nanos");
    reveal_strlit("us");
    reveal_strlit("usec");
    reveal_strlit("\u{b5}s");
    reveal_strlit("ms");
    reveal_strlit("msec");
    reveal_strlit("millis");
    assert forall|i: int| 0 <= i < text.len() implies !#[trigger] counts_subseconds(text, i) by {
        let start = unit_start(text, i);
        lemma_unit_start(text, i);
        let end = unit_end(text, start);
        assert(start <= end <= start + 1 && end <= text.len()) by {
            reveal_with_fuel(unit_end, 3);
        }
        assert(text.subrange(start, end).len() <= 1);
    }
}

/// What is shown of a duration can be read.
pub proof fn shown_duration_is_readable(duration: Duration)
    ensures
        within_humantime(duration_text(duration)),
{
    let whole = Duration { secs: duration.secs, nanos: 0 };
    if duration.secs == 0 && duration.nanos > 0 {
        assert(duration_parts(0) =~= Seq::<Seq<char>>::empty());
        lemma_no_subseconds(duration_text(duration));
    } else {
        assert(duration_text(duration) == duration_text(whole));
        lemma_shown_spans(duration.secs);
        lemma_is_span_text(shown_spans(duration.secs));
        lemma_no_subseconds(duration_text(duration));
    }
}

/// Of a deadline that has come nothing is left; before it, adding what is left to the time
/// gives the deadline back, as long as the distance has a 64-bit number of seconds.
pub proof fn time_left_reaches_deadline(deadline: Timestamp, now: Timestamp)
    ensures
        time_left(deadline, now).total() == 0 <==> deadline.nanos <= now.nanos,
        now.nanos < deadline.nanos && (deadline.nanos - now.nanos) / 1_000_000_000 <= u64::MAX
            ==> now.nanos + time_left(deadline, now).total() == deadline.nanos,
{
}

/// A deadline lies as far ahead as the time that was given, so that much is left at the start
/// and nothing once it has passed.
pub proof fn deadline_comes_after_the_time_given(
    start: Timestamp,
    ttl: Duration,
    deadline: Timestamp,
    now: Timestamp,
    left: Duration,
)
    requires
        ttl.well_formed(),
        start.nanos + ttl.total() <= i128::MAX,
        call_ensures(Timestamp::after, (&start, ttl), deadline),
        call_ensures(remaining_between, (deadline, now), left),
    ensures
        now == start ==> left == ttl,
        now.nanos - start.nanos >= ttl.secs * 1_000_000_000 + ttl.nanos <==> left.secs == 0
            && left.nanos == 0,
        start.nanos <= now.nanos && now.nanos - start.nanos < ttl.secs * 1_000_000_000
            + ttl.nanos ==> left.secs * 1_000_000_000 + left.nanos == ttl.secs * 1_000_000_000
            + ttl.nanos - (now.nanos - start.nanos),
{
    time_left_reaches_deadline(deadline, now);
    let total = ttl.secs as int * 1_000_000_000 + ttl.nanos as int;
    assert(total / 1_000_000_000 == ttl.secs);
    assert(total % 1_000_000_000 == ttl.nanos);
    if start.nanos <= now.nanos {
        assert((deadline.nanos - now.nanos) / 1_000_000_000 <= ttl.secs);
    }
}

/// The clock's reading is the time: seconds and nanoseconds from 1970 on, and before 1970 for a
/// clock that is set so far back.
pub proof fn clock_counts_from_1970(
    since: Duration,
    later: Timestamp,
    before: Duration,
    earlier: Timestamp,
    secs: u128,
)
    requires
        since.well_formed(),
        before.well_formed(),
        call_ensures(timestamp_at, (Ok(since),), later),
        call_ensures(timestamp_at, (Err(before),), earlier),
        call_ensures(unix_secs_at, (later,), secs),
    ensures
        later.nanos == since.secs * 1_000_000_000 + since.nanos,
        earlier.nanos == -(before.secs * 1_000_000_000 + before.nanos),
        secs == since.secs,
        before.secs > 0 ==> earlier.unix_secs() == 0,
{
    let total = since.secs as int * 1_000_000_000 + since.nanos as int;
    assert(total / 1_000_000_000 == since.secs);
}

/// Durations are built from and read as seconds.
pub proof fn seconds_are_seconds(secs: u64, made: Duration, duration: Duration, read: u64, zero: bool)
    requires
        call_ensures(Duration::from_secs, (secs,), made),
        call_ensures(Duration::as_secs, (&duration,), read),
        call_ensures(Duration::is_zero, (&duration,), zero),
    ensures
        made.secs == secs && made.nanos == 0,
        read == duration.secs,
        zero <==> duration.secs == 0 && duration.nanos == 0,
{
}

/// A duration is shown in days, hours, minutes and seconds, the largest first; what is zero is
/// left out, and no time at all is shown as no seconds.
pub proof fn units_are_shown(
    days: u64,
    hours: u64,
    minutes: u64,
    seconds: u64,
    duration: Duration,
    shown: String,
)
    requires
        hours < 24,
        minutes < 60,
        seconds < 60,
        duration.secs == days * 86_400 + hours * 3_600 + minutes * 60 + seconds,
        duration.secs > 0,
        call_ensures(format_duration, (duration,), shown),
    ensures
        shown@ == text::joined(
            unit_part(days as nat, "d"@) + unit_part(hours as nat, "h"@) + unit_part(
                minutes as nat,
                "m"@,
            ) + unit_part(seconds as nat, "s"@),
            " "@,
        ),
        days > 0 && hours == 0 && minutes == 0 && seconds == 0 ==> shown@ == decimal::decimal(
            days as nat,
        ) + "d"@,
        days == 0 && hours > 0 && minutes == 0 && seconds == 0 ==> shown@ == decimal::decimal(
            hours as nat,
        ) + "h"@,
        days == 0 && hours == 0 && minutes > 0 && seconds == 0 ==> shown@ == decimal::decimal(
            minutes as nat,
        ) + "m"@,
        days == 0 && hours == 0 && minutes == 0 && seconds > 0 ==> shown@ == decimal::decimal(
            seconds as nat,
        ) + "s"@,
        days == 0 && hours > 0 && minutes > 0 && seconds == 0 ==> shown@ == decimal::decimal(
            hours as nat,
        ) + "h"@ + " "@ + (decimal::decimal(minutes as nat) + "m"@),
{
    let secs = duration.secs as nat;
    let rest = hours * 3_600 + minutes * 60 + seconds;
    assert(secs / 86_400 == days && secs % 86_400 == rest);
    assert(rest / 3_600 == hours && rest % 3_600 == minutes * 60 + seconds);
    assert(secs % 3_600 == minutes * 60 + seconds);
    assert((minutes * 60 + seconds) / 60 == minutes);
    assert(secs % 60 == seconds);
    let parts = duration_parts(secs);
    if parts.len() == 1 {
        assert(parts =~= seq![parts[0]]);
        assert(text::joined(seq![parts[0]], " "@) == parts[0]);
    }
    if days == 0 && hours > 0 && minutes > 0 && seconds == 0 {
        let first = decimal::decimal(hours as nat) + "h"@;
        let second = decimal::decimal(minutes as nat) + "m"@;
        assert(parts =~= seq![first, second]);
        assert(parts.drop_last() =~= seq![first]);
        assert(text::joined(seq![first], " "@) == first);
    }
}

/// Short texts are read, whatever they say; so are long ones that name nothing below a second.
pub proof fn short_texts_are_readable(input: &str, res: bool)
    requires
        call_ensures(readable_duration, (input,), res),
    ensures
        input@.len() < 12 ==> res,
        !names_subseconds(input@) ==> res,
{
    lemma_few_digits(input@, 0);
}

proof fn lemma_few_digits(text: Seq<char>, i: int)
    requires
        0 <= i <= text.len(),
    ensures
        coarse_digits(text, i) <= text.len() - i,
    decreases text.len() - i,
{
    if i < text.len() {
        lemma_few_digits(text, i + 1);
    }
}

} // verus!
