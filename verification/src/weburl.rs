//! URLs as texts: what is read from them and how they are put together.
use vstd::prelude::*;

use crate::text;

verus! {

/// What is read from a URL: its scheme, its host, its port or the one that its scheme stands
/// for, and the whole of it as it is written out.
#[derive(Debug)]
pub struct UrlParts {
    pub scheme: String,
    pub host: Option<String>,
    pub port: Option<u16>,
    pub text: String,
}

/// The scheme, the host and the port that `url::Url::parse` finds in a text, with the URL as it
/// is written out, or its error.
pub uninterp spec fn url_parts(text: Seq<char>) -> Result<
    (Seq<char>, Option<Seq<char>>, Option<u16>, Seq<char>),
    Seq<char>,
>;

/// What `url::Url::join` makes of a base and a reference, none where one of them is not
/// accepted.
pub uninterp spec fn url_joined(base: Seq<char>, reference: Seq<char>) -> Option<Seq<char>>;

/// What `url::Url::set_scheme` makes of a URL, none where one of them is not accepted.
pub uninterp spec fn url_rescheme(url: Seq<char>, scheme: Seq<char>) -> Option<Seq<char>>;

/// What `url::Url::set_query` makes of a URL, none where it is not one.
pub uninterp spec fn url_requery(url: Seq<char>, query: Seq<char>) -> Option<Seq<char>>;

/// `c` stands in a path segment as it is.
pub open spec fn is_plain(c: char) -> bool {
    ||| 'a' <= c <= 'z'
    ||| 'A' <= c <= 'Z'
    ||| '0' <= c <= '9'
    ||| c == '-'
    ||| c == '_'
}

/// A path that does not begin with a slash, of characters that stand in it as they are.
pub open spec fn is_plain_path(path: Seq<char>) -> bool {
    &&& path.len() > 0
    &&& path[0] != '/'
    &&& forall|i: int| 0 <= i < path.len() ==> is_plain(#[trigger] path[i]) || path[i] == '/'
}

/// A query of characters that stand in it as they are.
pub open spec fn is_plain_query(query: Seq<char>) -> bool {
    forall|i: int| 0 <= i < query.len() ==> is_plain(#[trigger] query[i]) || query[i] == '='
}

/// Trusted: `url::Url::parse` with `scheme`, `host_str`, `port_or_known_default` and the
/// `Display` of its result. What is read, or the error as it is shown, depends on the text
/// alone.
#[verifier::external_body]
pub(crate) fn read_url(text: &str) -> (res: Result<UrlParts, String>)
    ensures
        match res {
            Ok(parts) => url_parts(text@) == Ok::<
                (Seq<char>, Option<Seq<char>>, Option<u16>, Seq<char>),
                Seq<char>,
            >((parts.scheme@, text::optional(parts.host), parts.port, parts.text@)),
            Err(error) => url_parts(text@) == Err::<
                (Seq<char>, Option<Seq<char>>, Option<u16>, Seq<char>),
                Seq<char>,
            >(error@),
        },
{
    let url = url::Url::parse(text).map_err(|error| error.to_string())?;
    Ok(
        UrlParts {
            scheme: url.scheme().to_string(),
            host: url.host_str().map(str::to_string),
            port: url.port_or_known_default(),
            text: url.to_string(),
        },
    )
}

/// The text begins like a URL of HTTP or HTTPS.
pub open spec fn is_web_url(text: Seq<char>) -> bool {
    text::starts_with(text, "http://"@) || text::starts_with(text, "https://"@)
}

/// Trusted: `url::Url::join`, on a base that `url::Url::parse` has read. On a base of HTTP or
/// HTTPS, a plain path takes the place of what stands behind the last slash of the base's path,
/// and of its query and fragment. Which bases are accepted is left to the crate.
#[verifier::external_body]
pub(crate) fn join_url(base: &str, reference: &str) -> (res: Option<String>)
    ensures
        text::optional(res) == url_joined(base@, reference@),
        is_web_url(base@) && is_plain_path(reference@) ==> (res matches Some(joined)
            ==> text::ends_with(
            joined@,
            "/"@ + reference@,
        ) && !joined@.contains('#')),
{
    url::Url::parse(base).ok()?.join(reference).ok().map(|joined| joined.to_string())
}

/// A URL that takes the scheme `ws` or `wss` can still be counted in 32 bits: it grows by two
/// bytes at most. A URL is written out in ASCII, so that its characters are its bytes.
pub open spec fn scheme_fits(url: Seq<char>) -> bool {
    match url_parts(url) {
        Ok((_, _, _, written)) => written.len() + 2 <= u32::MAX,
        Err(_) => true,
    }
}

/// A URL that takes the query can still be counted in 32 bits: of a character of the query come
/// twelve bytes at most, three for each byte of its UTF-8 form.
pub open spec fn query_fits(url: Seq<char>, query: Seq<char>) -> bool {
    match url_parts(url) {
        Ok((_, _, _, written)) => written.len() + 1 + 12 * query.len() <= u32::MAX,
        Err(_) => true,
    }
}

/// Whether a URL that takes the scheme `ws` or `wss` can be counted in 32 bits.
pub fn has_scheme_room(url: &str) -> (res: bool)
    ensures
        res == scheme_fits(url@),
{
    match read_url(url) {
        Ok(parts) => parts.text.as_str().unicode_len() <= u32::MAX as usize - 2,
        Err(_) => true,
    }
}

/// Whether a URL that takes the query can be counted in 32 bits.
pub fn has_query_room(url: &str, query: &str) -> (res: bool)
    ensures
        res == query_fits(url@, query@),
{
    match read_url(url) {
        Ok(parts) => {
            let taken: usize = parts.text.as_str().unicode_len();
            let room: usize = u32::MAX as usize - 1;
            taken <= room && query.unicode_len() <= (room - taken) / 12
        },
        Err(_) => true,
    }
}

/// Trusted: `url::Url::set_scheme`, on a URL that `url::Url::parse` has read, for the schemes
/// `ws` and `wss`. The new URL begins with the scheme, and gets no fragment that the old one did
/// not have. Which changes are accepted is left to the crate. It counts bytes in 32 bits, which
/// `scheme_fits` keeps from running over.
#[verifier::external_body]
pub(crate) fn rescheme_url(url: &str, scheme: &str) -> (res: Option<String>)
    requires
        scheme@ == "ws"@ || scheme@ == "wss"@,
        scheme_fits(url@),
    ensures
        text::optional(res) == url_rescheme(url@, scheme@),
        res matches Some(changed) ==> text::starts_with(changed@, scheme@ + ":"@),
        !url@.contains('#') ==> (res matches Some(changed) ==> !changed@.contains('#')),
{
    let mut changed = url::Url::parse(url).ok()?;
    changed.set_scheme(scheme).ok()?;
    Some(changed.to_string())
}

/// Trusted: `url::Url::set_query`, on a URL that `url::Url::parse` has read. A plain query
/// stands at the end of a URL without a fragment, and the scheme stays (stated for `ws` and
/// `wss`). The crate counts bytes in 32 bits and panics beyond that, which `query_fits` rules
/// out.
#[verifier::external_body]
pub(crate) fn requery_url(url: &str, query: &str) -> (res: Option<String>)
    requires
        query_fits(url@, query@),
    ensures
        text::optional(res) == url_requery(url@, query@),
        is_plain_query(query@) && !url@.contains('#') ==> (res matches Some(changed)
            ==> text::ends_with(changed@, "?"@ + query@)),
        text::starts_with(url@, "ws:"@) ==> (res matches Some(changed) ==> text::starts_with(
            changed@,
            "ws:"@,
        )),
        text::starts_with(url@, "wss:"@) ==> (res matches Some(changed) ==> text::starts_with(
            changed@,
            "wss:"@,
        )),
{
    let mut changed = url::Url::parse(url).ok()?;
    changed.set_query(Some(query));
    Some(changed.to_string())
}

/// The host that a text names as a URL.
pub open spec fn host_of(text: Seq<char>) -> Option<Seq<char>> {
    match url_parts(text) {
        Ok((_, host, _, _)) => host,
        Err(_) => None,
    }
}

/// The host that a text names as a URL.
pub fn url_host(text: &str) -> (res: Option<String>)
    ensures
        text::optional(res) == host_of(text@),
{
    match read_url(text) {
        Ok(parts) => parts.host,
        Err(_) => None,
    }
}

/// The host of a URL is the one that is read from it; a text that is no URL has none.
pub proof fn host_is_read_from_url(
    text: &str,
    host: Option<String>,
    scheme: Seq<char>,
    own: Option<Seq<char>>,
    port: Option<u16>,
    written: Seq<char>,
)
    requires
        call_ensures(url_host, (text,), host),
    ensures
        url_parts(text@) == Ok::<
            (Seq<char>, Option<Seq<char>>, Option<u16>, Seq<char>),
            Seq<char>,
        >((scheme, own, port, written)) ==> text::optional(host) == own,
        url_parts(text@) is Err ==> host is None,
{
}

} // verus!
