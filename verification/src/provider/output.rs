//! The lines of a tunnel program that tell why it did not start.
use vstd::prelude::*;

use crate::text;

verus! {

/// cloudflared reports an error.
pub open spec fn is_cloudflared_error(line: Seq<char>) -> bool {
    ||| text::contains(line, " ERR "@)
    ||| text::starts_with(line, "ERR "@)
    ||| text::starts_with(line, "failed "@)
    ||| text::starts_with(line, "failed to "@)
}

pub fn seems_cloudflared_error(line: &str) -> (res: bool)
    ensures
        res == is_cloudflared_error(line@),
{
    text::has_substring(line, " ERR ") || text::has_prefix(line, "ERR ") || text::has_prefix(
        line,
        "failed ",
    ) || text::has_prefix(line, "failed to ")
}

/// How much a line of cloudflared tells of the cause: an HTTP status most, then a line that is
/// marked as an error, then any other line on a failure.
pub open spec fn telling(line: Seq<char>) -> u8 {
    if text::contains(line, "status_code="@) || text::contains(line, "Too Many Requests"@) {
        3
    } else if text::contains(line, " ERR "@) || text::starts_with(line, "ERR "@) {
        2
    } else if is_cloudflared_error(line) {
        1
    } else {
        0
    }
}

pub fn cloudflared_error_priority(line: &str) -> (res: u8)
    ensures
        res == telling(line@),
{
    if text::has_substring(line, "status_code=") || text::has_substring(
        line,
        "Too Many Requests",
    ) {
        3
    } else if text::has_substring(line, " ERR ") || text::has_prefix(line, "ERR ") {
        2
    } else if seems_cloudflared_error(line) {
        1
    } else {
        0
    }
}

/// What is kept as the cause after another line of cloudflared: the first of those that tell
/// most.
pub open spec fn cloudflared_cause(kept: Option<Seq<char>>, line: Seq<char>) -> Option<Seq<char>> {
    if !is_cloudflared_error(line) {
        kept
    } else {
        match kept {
            None => Some(line),
            Some(current) => if telling(line) > telling(current) {
                Some(line)
            } else {
                kept
            },
        }
    }
}

pub fn record_cloudflared_startup_error(startup_error: &mut Option<String>, line: &str)
    ensures
        text::optional(*final(startup_error)) == cloudflared_cause(
            text::optional(*old(startup_error)),
            line@,
        ),
{
    if !seems_cloudflared_error(line) {
        return;
    }
    let replace = match startup_error {
        None => true,
        Some(current) => cloudflared_error_priority(line) > cloudflared_error_priority(
            current.as_str(),
        ),
    };
    if replace {
        *startup_error = Some(line.to_string());
    }
}

/// ssh reports an error.
pub open spec fn is_ssh_error(line: Seq<char>) -> bool {
    ||| text::starts_with(line, "ssh: "@)
    ||| text::contains(line, "Permission denied"@)
    ||| text::contains(line, "Host key verification failed"@)
    ||| text::contains(line, "Could not resolve hostname"@)
    ||| text::contains(line, "Connection timed out"@)
    ||| text::contains(line, "Connection refused"@)
    ||| text::contains(line, "remote port forwarding failed"@)
    ||| text::contains(line, "administratively prohibited"@)
    ||| text::contains(line, "kex_exchange_identification"@)
}

pub fn seems_ssh_provider_error(line: &str) -> (res: bool)
    ensures
        res == is_ssh_error(line@),
{
    text::has_prefix(line, "ssh: ") || text::has_substring(line, "Permission denied")
        || text::has_substring(line, "Host key verification failed") || text::has_substring(
        line,
        "Could not resolve hostname",
    ) || text::has_substring(line, "Connection timed out") || text::has_substring(
        line,
        "Connection refused",
    ) || text::has_substring(line, "remote port forwarding failed") || text::has_substring(
        line,
        "administratively prohibited",
    ) || text::has_substring(line, "kex_exchange_identification")
}

pub fn seems_pinggy_error(line: &str) -> (res: bool)
    ensures
        res == is_ssh_error(line@),
{
    seems_ssh_provider_error(line)
}

/// What is kept as the cause after another line of ssh: the last error.
pub open spec fn ssh_cause(kept: Option<Seq<char>>, line: Seq<char>) -> Option<Seq<char>> {
    if is_ssh_error(line) {
        Some(line)
    } else {
        kept
    }
}

pub fn record_ssh_provider_startup_error(startup_error: &mut Option<String>, line: &str)
    ensures
        text::optional(*final(startup_error)) == ssh_cause(
            text::optional(*old(startup_error)),
            line@,
        ),
{
    if !seems_ssh_provider_error(line) {
        return;
    }
    *startup_error = Some(line.to_string());
}

pub fn record_pinggy_startup_error(startup_error: &mut Option<String>, line: &str)
    ensures
        text::optional(*final(startup_error)) == ssh_cause(
            text::optional(*old(startup_error)),
            line@,
        ),
{
    record_ssh_provider_startup_error(startup_error, line)
}

/// What is kept as the cause after all of the lines of cloudflared.
pub open spec fn cloudflared_cause_of(lines: Seq<Seq<char>>) -> Option<Seq<char>>
    decreases lines.len(),
{
    if lines.len() == 0 {
        None
    } else {
        cloudflared_cause(cloudflared_cause_of(lines.drop_last()), lines.last())
    }
}

/// The line at `at` is the first among the lines that tell most of an error.
pub open spec fn tells_most(lines: Seq<Seq<char>>, at: int) -> bool {
    &&& 0 <= at < lines.len()
    &&& is_cloudflared_error(lines[at])
    &&& forall|i: int|
        0 <= i < lines.len() && is_cloudflared_error(#[trigger] lines[i]) ==> telling(lines[i])
            <= telling(lines[at])
    &&& forall|i: int|
        0 <= i < at && is_cloudflared_error(#[trigger] lines[i]) ==> telling(lines[i]) < telling(
            lines[at],
        )
}

/// Of all lines of cloudflared that report an error, the first of those that tell most is kept;
/// none is kept only where no line reports an error.
pub proof fn most_telling_error_is_kept(lines: Seq<Seq<char>>)
    ensures
        match cloudflared_cause_of(lines) {
            Some(kept) => exists|at: int| #[trigger] tells_most(lines, at) && lines[at] == kept,
            None => forall|i: int|
                0 <= i < lines.len() ==> !is_cloudflared_error(#[trigger] lines[i]),
        },
    decreases lines.len(),
{
    if lines.len() > 0 {
        let front = lines.drop_last();
        let end = lines.len() - 1;
        most_telling_error_is_kept(front);
        assert forall|i: int| 0 <= i < end implies #[trigger] lines[i] == front[i] by {}
        match cloudflared_cause_of(front) {
            Some(kept) => {
                let at = choose|at: int| #[trigger] tells_most(front, at) && front[at] == kept;
                if is_cloudflared_error(lines[end]) && telling(lines[end]) > telling(kept) {
                    assert(tells_most(lines, end));
                } else {
                    assert(tells_most(lines, at));
                }
            },
            None => {
                if is_cloudflared_error(lines[end]) {
                    assert(tells_most(lines, end));
                }
            },
        }
    }
}

} // verus!
