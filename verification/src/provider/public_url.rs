//! The public URL of a tunnel, as the program that opens the tunnel prints it.
use vstd::prelude::*;

use crate::text;
use crate::weburl;

verus! {

/// What a public URL of cloudflared looks like.
pub const CLOUDFLARED_URL: &'static str = "https://[A-Za-z0-9._/-]*trycloudflare\\.com";

/// What a public URL of Pinggy looks like.
pub const PINGGY_URL: &'static str =
    "https://[A-Za-z0-9._-]+(?:\\.[A-Za-z0-9._-]+)*\\.pinggy\\.(?:link|io)";

/// What a public URL of Serveo looks like.
pub const SERVEO_URL: &'static str =
    "https://[A-Za-z0-9._-]+(?:\\.[A-Za-z0-9._-]+)*\\.(?:serveo\\.net|serveousercontent\\.com)";

/// The matches of a pattern in a text, from left to right and without overlap, as
/// `regex::Regex::find_iter` finds them; none where `regex::Regex::new` refuses the pattern.
pub uninterp spec fn regex_matches(pattern: Seq<char>, text: Seq<char>) -> Option<Seq<Seq<char>>>;

/// Trusted: `regex::Regex::new` and `find_iter`. The matches depend on the pattern and the text
/// alone, and each of them is a part of the text. One of `CLOUDFLARED_URL` begins with
/// `https://` and ends with `trycloudflare.com`; one of `PINGGY_URL` or `SERVEO_URL` begins
/// with `https://`.
#[verifier::external_body]
fn find_all(pattern: &str, text: &str) -> (res: Option<Vec<String>>)
    ensures
        match res {
            Some(found) => regex_matches(pattern@, text@) == Some(text::views(found@)),
            None => regex_matches(pattern@, text@) is None,
        },
        res matches Some(found) ==> forall|i: int|
            0 <= i < found@.len() ==> {
                &&& text::contains(text@, (#[trigger] found@[i])@)
                &&& pattern@ == CLOUDFLARED_URL@ ==> text::starts_with(found@[i]@, "https://"@)
                    && text::ends_with(found@[i]@, "trycloudflare.com"@)
                &&& pattern@ == PINGGY_URL@ || pattern@ == SERVEO_URL@ ==> text::starts_with(
                    found@[i]@,
                    "https://"@,
                )
            },
{
    let regex = regex::Regex::new(pattern).ok()?;
    Some(regex.find_iter(text).map(|found| found.as_str().to_string()).collect())
}

/// The first match of a pattern in a text.
pub open spec fn first_match(pattern: Seq<char>, text: Seq<char>) -> Option<Seq<char>> {
    match regex_matches(pattern, text) {
        Some(found) => if found.len() > 0 {
            Some(found[0])
        } else {
            None
        },
        None => None,
    }
}

/// The first match of a pattern in a line.
pub fn extract_public_url(line: &str, pattern: &str) -> (res: Option<String>)
    ensures
        text::optional(res) == first_match(pattern@, line@),
        res matches Some(url) ==> text::contains(line@, url@),
        pattern@ == CLOUDFLARED_URL@ ==> (res matches Some(url) ==> text::starts_with(
            url@,
            "https://"@,
        ) && text::ends_with(url@, "trycloudflare.com"@)),
{
    match find_all(pattern, line) {
        Some(found) => {
            assert(found@.len() > 0 ==> text::views(found@)[0] == found@[0]@);
            first_found(&found)
        },
        None => None,
    }
}

/// The first of the matches.
pub fn first_found(found: &Vec<String>) -> (res: Option<String>)
    ensures
        text::optional(res) == (if found@.len() > 0 {
            Some(found@[0]@)
        } else {
            None
        }),
{
    if found.len() > 0 {
        Some(found[0].clone())
    } else {
        None
    }
}

/// A host that Pinggy gives to a tunnel: not the dashboard.
pub open spec fn is_pinggy_host(host: Seq<char>) -> bool {
    &&& host != "dashboard.pinggy.io"@
    &&& text::ends_with(host, ".pinggy.link"@) || (text::ends_with(host, ".pinggy.io"@)
        && !text::starts_with(host, "dashboard."@))
}

/// A host that Serveo gives to a tunnel.
pub open spec fn is_serveo_host(host: Seq<char>) -> bool {
    text::ends_with(host, ".serveo.net"@) || text::ends_with(host, ".serveousercontent.com"@)
}

/// Which hosts are taken.
#[derive(Clone, Copy, Debug, PartialEq, Eq, Structural)]
pub enum HostRule {
    Pinggy,
    Serveo,
}

impl HostRule {
    pub open spec fn accepts(self, host: Seq<char>) -> bool {
        match self {
            HostRule::Pinggy => is_pinggy_host(host),
            HostRule::Serveo => is_serveo_host(host),
        }
    }

    /// The URL has a host, and the host is taken.
    pub open spec fn accepts_url(self, url: Seq<char>) -> bool {
        match weburl::host_of(url) {
            Some(host) => self.accepts(host),
            None => false,
        }
    }

    /// Whether a host is taken.
    pub fn allows(self, host: &str) -> (res: bool)
        ensures
            res == self.accepts(host@),
    {
        match self {
            HostRule::Pinggy => {
                if text::same(host, "dashboard.pinggy.io") {
                    return false;
                }
                text::has_suffix(host, ".pinggy.link") || (text::has_suffix(host, ".pinggy.io")
                    && !text::has_prefix(host, "dashboard."))
            },
            HostRule::Serveo => text::has_suffix(host, ".serveo.net") || text::has_suffix(
                host,
                ".serveousercontent.com",
            ),
        }
    }
}

/// The first of the URLs whose host is taken.
pub open spec fn first_accepted(urls: Seq<Seq<char>>, rule: HostRule) -> Option<Seq<char>>
    decreases urls.len(),
{
    if urls.len() == 0 {
        None
    } else if rule.accepts_url(urls[0]) {
        Some(urls[0])
    } else {
        first_accepted(urls.skip(1), rule)
    }
}

/// The first match of a pattern in a text whose host is taken.
pub open spec fn first_link(pattern: Seq<char>, text: Seq<char>, rule: HostRule) -> Option<
    Seq<char>,
> {
    match regex_matches(pattern, text) {
        Some(found) => first_accepted(found, rule),
        None => None,
    }
}

/// The first match of a pattern in a text whose host is taken.
fn extract_link(text: &str, pattern: &str, rule: HostRule) -> (res: Option<String>)
    ensures
        text::optional(res) == first_link(pattern@, text@, rule),
        res matches Some(url) ==> text::contains(text@, url@) && rule.accepts_url(url@),
        pattern@ == PINGGY_URL@ || pattern@ == SERVEO_URL@ ==> (res matches Some(url)
            ==> text::starts_with(url@, "https://"@)),
{
    let found = match find_all(pattern, text) {
        Some(found) => found,
        None => return None,
    };
    proof {
        lemma_accepted_is_one(text::views(found@), rule);
    }
    first_accepted_link(&found, rule)
}

proof fn lemma_accepted_is_one(urls: Seq<Seq<char>>, rule: HostRule)
    ensures
        first_accepted(urls, rule) matches Some(url) ==> rule.accepts_url(url) && exists|k: int|
            0 <= k < urls.len() && #[trigger] urls[k] == url,
    decreases urls.len(),
{
    if urls.len() > 0 && !rule.accepts_url(urls[0]) {
        lemma_accepted_is_one(urls.skip(1), rule);
        if let Some(url) = first_accepted(urls.skip(1), rule) {
            let k = choose|k: int| 0 <= k < urls.skip(1).len() && #[trigger] urls.skip(1)[k] == url;
            assert(urls[k + 1] == url);
        }
    }
}

/// The first of the URLs whose host is taken.
pub fn first_accepted_link(found: &Vec<String>, rule: HostRule) -> (res: Option<String>)
    ensures
        text::optional(res) == first_accepted(text::views(found@), rule),
{
    let ghost urls = text::views(found@);
    let mut i: usize = 0;
    assert(urls.skip(0) =~= urls);
    while i < found.len()
        invariant
            urls == text::views(found@),
            i <= found@.len(),
            first_accepted(urls.skip(i as int), rule) == first_accepted(urls, rule),
        decreases found@.len() - i,
    {
        assert(urls.skip(i as int)[0] == found@[i as int]@);
        assert(urls.skip(i as int).skip(1) =~= urls.skip(i + 1));
        if let Some(host) = weburl::url_host(found[i].as_str()) {
            if rule.allows(host.as_str()) {
                return Some(found[i].clone());
            }
        }
        i = i + 1;
    }
    None
}

/// The first URL in a line that belongs to a tunnel of Pinggy.
pub fn extract_pinggy_public_url(line: &str, pattern: &str) -> (res: Option<String>)
    ensures
        text::optional(res) == first_link(pattern@, line@, HostRule::Pinggy),
        res matches Some(url) ==> text::contains(line@, url@) && HostRule::Pinggy.accepts_url(url@),
        pattern@ == PINGGY_URL@ ==> (res matches Some(url) ==> text::starts_with(
            url@,
            "https://"@,
        )),
{
    extract_link(line, pattern, HostRule::Pinggy)
}

/// The first URL in a line, without its terminal sequences, that belongs to a tunnel of
/// Serveo.
pub fn extract_serveo_public_url(line: &str, pattern: &str) -> (res: Option<String>)
    ensures
        text::optional(res) == first_link(pattern@, stripped(line@), HostRule::Serveo),
        res matches Some(url) ==> text::contains(stripped(line@), url@)
            && HostRule::Serveo.accepts_url(url@),
        pattern@ == SERVEO_URL@ ==> (res matches Some(url) ==> text::starts_with(
            url@,
            "https://"@,
        )),
{
    let clean_line = strip_ansi(line);
    extract_link(clean_line.as_str(), pattern, HostRule::Serveo)
}

/// What follows a terminal sequence whose start has been read: the rest behind its final
/// character.
pub open spec fn behind_sequence(text: Seq<char>) -> Seq<char>
    decreases text.len(),
{
    if text.len() == 0 {
        text
    } else if '@' <= text[0] <= '~' {
        text.skip(1)
    } else {
        behind_sequence(text.skip(1))
    }
}

proof fn lemma_behind_is_shorter(text: Seq<char>)
    ensures
        behind_sequence(text).len() <= text.len(),
    decreases text.len(),
{
    if text.len() > 0 && !('@' <= text[0] <= '~') {
        lemma_behind_is_shorter(text.skip(1));
    }
}

/// A text without its terminal sequences.
pub open spec fn stripped(text: Seq<char>) -> Seq<char>
    decreases text.len(),
    via stripped_decreases
{
    if text.len() == 0 {
        text
    } else if text[0] == '\u{1b}' && text.len() > 1 && text[1] == '[' {
        stripped(behind_sequence(text.skip(2)))
    } else {
        seq![text[0]] + stripped(text.skip(1))
    }
}

#[via_fn]
proof fn stripped_decreases(text: Seq<char>) {
    if text.len() > 1 {
        lemma_behind_is_shorter(text.skip(2));
    }
}

/// A text without its terminal sequences.
pub fn strip_ansi(value: &str) -> (res: String)
    ensures
        res@ == stripped(value@),
{
    let chars = text::chars_of(value);
    let mut output = String::new();
    let mut i: usize = 0;
    assert(chars@.skip(0) =~= value@);
    assert(output@ + stripped(value@) =~= stripped(value@));
    while i < chars.len()
        invariant
            chars@ == value@,
            i <= chars@.len(),
            output@ + stripped(chars@.skip(i as int)) == stripped(value@),
        decreases chars@.len() - i,
    {
        let ghost rest = chars@.skip(i as int);
        if chars[i] == '\u{1b}' && i + 1 < chars.len() && chars[i + 1] == '[' {
            let mut at: usize = i + 2;
            assert(rest.skip(2) =~= chars@.skip(i + 2));
            let mut open = true;
            while open && at < chars.len()
                invariant
                    chars@ == value@,
                    i + 2 <= at <= chars@.len(),
                    rest == chars@.skip(i as int),
                    open ==> behind_sequence(rest.skip(2)) == behind_sequence(
                        chars@.skip(at as int),
                    ),
                    !open ==> behind_sequence(rest.skip(2)) == chars@.skip(at as int),
                decreases chars@.len() - at,
            {
                assert(chars@.skip(at as int).skip(1) =~= chars@.skip(at + 1));
                if '@' <= chars[at] && chars[at] <= '~' {
                    open = false;
                }
                at = at + 1;
            }
            i = at;
        } else {
            assert(rest.skip(1) =~= chars@.skip(i + 1));
            let ghost before = output@;
            output.push(chars[i]);
            assert(before + (seq![rest[0]] + stripped(rest.skip(1))) =~= output@ + stripped(
                rest.skip(1),
            ));
            i = i + 1;
        }
    }
    assert(chars@.skip(i as int) =~= Seq::<char>::empty());
    assert(output@ + Seq::<char>::empty() =~= output@);
    output
}

/// A text without an escape character has no terminal sequences to lose.
pub proof fn plain_text_keeps_everything(text: Seq<char>)
    requires
        !text.contains('\u{1b}'),
    ensures
        stripped(text) == text,
    decreases text.len(),
{
    if text.len() > 0 {
        assert(text[0] != '\u{1b}');
        assert(!text.skip(1).contains('\u{1b}')) by {
            if text.skip(1).contains('\u{1b}') {
                let i = choose|i: int|
                    0 <= i < text.skip(1).len() && text.skip(1)[i] == '\u{1b}';
                assert(text[i + 1] == '\u{1b}');
            }
        }
        plain_text_keeps_everything(text.skip(1));
        assert(seq![text[0]] + text.skip(1) =~= text);
    }
}

/// The dashboard of Pinggy is never taken for a tunnel.
pub proof fn dashboard_is_no_tunnel(urls: Seq<Seq<char>>)
    ensures
        first_accepted(urls, HostRule::Pinggy) matches Some(url) ==> weburl::host_of(url)
            != Some("dashboard.pinggy.io"@),
    decreases urls.len(),
{
    if urls.len() > 0 && !HostRule::Pinggy.accepts_url(urls[0]) {
        dashboard_is_no_tunnel(urls.skip(1));
    }
}

} // verus!
