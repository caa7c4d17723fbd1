//! How a session answers a request for its content.
use vstd::prelude::*;

use axum::http::{HeaderMap, HeaderValue};

use crate::access;
use crate::content::ContentSource;
use crate::decimal;
use crate::duration;
use crate::duration::Timestamp;
use crate::headers;
use crate::relay_protocol;
use crate::relay_protocol::HeaderPair;
use crate::session;
use crate::session::range;
use crate::session::range::RequestedRange;
use crate::session::{SessionRejection, SessionState, SharedSession};
use crate::text;

verus! {

impl SharedSession {
    /// Why a request with this token is turned away before anything else is looked at.
    pub open spec fn page_refusal(self, token: Seq<char>, now: Timestamp) -> Option<
        SessionRejection,
    > {
        if token != self.token@ {
            Some(SessionRejection::InvalidToken)
        } else if self.access.expires_at.nanos <= now.nanos {
            Some(SessionRejection::Expired)
        } else {
            None
        }
    }

    /// Why a request for the content is turned away: the token, the expiry, the PIN and a
    /// finished burn-after-reading transfer are looked at in this order.
    pub open spec fn download_refusal(
        self,
        token: Seq<char>,
        pin: Option<Seq<char>>,
        now: Timestamp,
    ) -> Option<SessionRejection> {
        if self.page_refusal(token, now) is Some {
            self.page_refusal(token, now)
        } else if !access::pin_accepted(text::optional(self.access.pin_hash), pin) {
            if pin is None {
                Some(SessionRejection::PinRequired)
            } else {
                Some(SessionRejection::InvalidPin)
            }
        } else if self.state.consumed {
            Some(SessionRejection::AlreadyConsumed)
        } else {
            None
        }
    }

    /// Why no download can start.
    pub open spec fn reserve_refusal(self) -> Option<SessionRejection> {
        if self.state.consumed {
            Some(SessionRejection::AlreadyConsumed)
        } else if self.access.once && self.state.active_download {
            Some(SessionRejection::Busy)
        } else {
            None
        }
    }

    /// `self` is `before` after an attempt to start a download.
    pub open spec fn reserved(self, before: SharedSession) -> bool {
        &&& self.same_subject(before)
        &&& self.state == if before.reserve_refusal() is None && before.access.once {
            SessionState { active_download: true, ..before.state }
        } else {
            before.state
        }
    }

    /// `self` is `before` after `count` more bytes.
    pub open spec fn served(self, before: SharedSession, count: int) -> bool {
        &&& self.same_subject(before)
        &&& self.state == SessionState {
            bytes_served: (before.state.bytes_served + count) as u64,
            ..before.state
        }
    }

    /// `self` is `before` after the end of a download.
    pub open spec fn finished(self, before: SharedSession, success: bool) -> bool {
        let burnt = success && before.access.once;
        &&& self.same_subject(before)
        &&& self.state == SessionState {
            completed_downloads: if success {
                (before.state.completed_downloads + 1) as u64
            } else {
                before.state.completed_downloads
            },
            consumed: burnt || before.state.consumed,
            active_download: !before.access.once && before.state.active_download,
            provider_status: self.state.provider_status,
            ..before.state
        }
        &&& burnt ==> self.state.provider_status@ == "Burn-after-reading completed"@
        &&& !burnt ==> self.state.provider_status == before.state.provider_status
    }

    fn validate_token(&self, supplied_token: &str) -> (res: Result<(), SessionRejection>)
        ensures
            res == session::verdict(
                if supplied_token@ == self.token@ {
                    None
                } else {
                    Some(SessionRejection::InvalidToken)
                },
            ),
    {
        if text::same(supplied_token, self.token.as_str()) {
            Ok(())
        } else {
            Err(SessionRejection::InvalidToken)
        }
    }

    fn is_expired_at(&self, now: Timestamp) -> (res: bool)
        ensures
            res == (self.access.expires_at.nanos <= now.nanos),
    {
        self.access.expires_at.nanos <= now.nanos
    }

    /// Whether the page is shown at the moment `now` to a request with this token.
    pub fn admit_page_at(&self, supplied_token: &str, now: Timestamp) -> (res: Result<
        (),
        SessionRejection,
    >)
        ensures
            res == session::verdict(self.page_refusal(supplied_token@, now)),
    {
        match self.validate_token(supplied_token) {
            Err(rejection) => Err(rejection),
            Ok(()) => if self.is_expired_at(now) {
                Err(SessionRejection::Expired)
            } else {
                Ok(())
            },
        }
    }

    /// Whether a request for the content is admitted at the moment `now`.
    pub fn begin_download_at(
        &self,
        supplied_token: &str,
        supplied_pin: Option<&str>,
        now: Timestamp,
    ) -> (res: Result<(), SessionRejection>)
        ensures
            res == session::verdict(
                self.download_refusal(supplied_token@, text::optional_str(supplied_pin), now),
            ),
    {
        match self.admit_page_at(supplied_token, now) {
            Err(rejection) => return Err(rejection),
            Ok(()) => {},
        }
        if !access::verify_pin(text::borrow_optional(&self.access.pin_hash), supplied_pin) {
            return if supplied_pin.is_none() {
                Err(SessionRejection::PinRequired)
            } else {
                Err(SessionRejection::InvalidPin)
            };
        }
        if self.state.consumed {
            return Err(SessionRejection::AlreadyConsumed);
        }
        Ok(())
    }

    /// Whether a request for the content is admitted now.
    pub fn begin_download(&self, supplied_token: &str, supplied_pin: Option<&str>) -> (res: Result<
        (),
        SessionRejection,
    >)
        ensures
            exists|now: Timestamp|
                now.on_clock() && res == session::verdict(
                    #[trigger] self.download_refusal(
                        supplied_token@,
                        text::optional_str(supplied_pin),
                        now,
                    ),
                ),
    {
        let now = duration::now();
        self.begin_download_at(supplied_token, supplied_pin, now)
    }

    /// Takes the place of a burn-after-reading download; other downloads run side by side.
    pub fn reserve_download(&mut self) -> (res: Result<(), SessionRejection>)
        ensures
            res == session::verdict(old(self).reserve_refusal()),
            final(self).reserved(*old(self)),
    {
        if self.state.consumed {
            return Err(SessionRejection::AlreadyConsumed);
        }
        if self.access.once && self.state.active_download {
            return Err(SessionRejection::Busy);
        }
        if self.access.once {
            self.state.active_download = true;
        }
        Ok(())
    }

    pub fn record_bytes(&mut self, count: u64)
        requires
            old(self).state.bytes_served + count <= u64::MAX,
        ensures
            final(self).served(*old(self), count as int),
    {
        self.state.bytes_served = self.state.bytes_served + count;
    }

    /// Counts what has been sent since the last report, and gives the report to compare the
    /// next one with.
    pub fn record_progress(&mut self, last_total: u64, total: u64) -> (res: u64)
        requires
            old(self).state.bytes_served + advance(last_total, total) <= u64::MAX,
        ensures
            res == total,
            final(self).served(*old(self), advance(last_total, total)),
    {
        let delta: u64 = if total > last_total { total - last_total } else { 0 };
        if delta > 0 {
            self.record_bytes(delta);
        }
        total
    }

    /// Ends a download, and says whether the whole session ends with it.
    pub fn finish_download(&mut self, success: bool) -> (res: bool)
        requires
            success ==> old(self).state.completed_downloads < u64::MAX,
        ensures
            res == (success && old(self).access.once),
            final(self).finished(*old(self), success),
    {
        if success {
            self.state.completed_downloads = self.state.completed_downloads + 1;
            if self.access.once {
                self.state.consumed = true;
                self.state.active_download = false;
                self.state.provider_status = "Burn-after-reading completed".to_string();
                return true;
            }
        }
        if self.access.once {
            self.state.active_download = false;
        }
        false
    }
}

/// How far `total` is ahead of `last_total`.
pub open spec fn advance(last_total: u64, total: u64) -> int {
    if total > last_total {
        total - last_total
    } else {
        0
    }
}

/// How a download is answered.
#[derive(Debug)]
pub struct DownloadPlan {
    pub status: u16,
    pub content_length: Option<u64>,
    pub content_range: Option<String>,
    pub accept_ranges: &'static str,
    pub range: Option<RequestedRange>,
}

/// A plan with its texts as sequences of characters.
#[verifier::ext_equal]
pub ghost struct PlanView {
    pub status: u16,
    pub content_length: Option<u64>,
    pub content_range: Option<Seq<char>>,
    pub accept_ranges: Seq<char>,
    pub range: Option<RequestedRange>,
}

impl View for DownloadPlan {
    type V = PlanView;

    open spec fn view(&self) -> PlanView {
        PlanView {
            status: self.status,
            content_length: self.content_length,
            content_range: text::optional(self.content_range),
            accept_ranges: self.accept_ranges@,
            range: self.range,
        }
    }
}

/// The range that was asked for does not lie in the content, which has `total` bytes.
#[derive(Clone, Copy, Debug, PartialEq, Eq, Structural)]
pub struct UnsatisfiableRange {
    pub total: u64,
}

impl UnsatisfiableRange {
    pub fn status(&self) -> (res: u16)
        ensures
            res == 416,
    {
        416
    }

    pub fn message(&self) -> (res: &'static str)
        ensures
            res@ == "Invalid or unsatisfiable range"@,
    {
        "Invalid or unsatisfiable range"
    }

    /// The value of the `Content-Range` header of the answer.
    pub fn content_range(&self) -> (res: String)
        ensures
            res@ == "bytes */"@ + decimal::decimal(self.total as nat),
    {
        let mut out = "bytes */".to_string();
        out.append(decimal::format_u64(self.total).as_str());
        out
    }
}

/// How a download of this content is answered, none where the range lies outside of it.
pub open spec fn plan_for(content: ContentSource, range_header: Option<Seq<char>>) -> Option<
    PlanView,
> {
    match (content.length(), range_header) {
        (None, _) => Some(
            PlanView {
                status: 200,
                content_length: None,
                content_range: None,
                accept_ranges: "none"@,
                range: None,
            },
        ),
        (Some(total), None) => Some(
            PlanView {
                status: 200,
                content_length: Some(total),
                content_range: None,
                accept_ranges: "bytes"@,
                range: None,
            },
        ),
        (Some(total), Some(header)) => match range::range_of_header(header, total) {
            None => None,
            Some(part) => Some(
                PlanView {
                    status: 206,
                    content_length: Some((part.end - part.start + 1) as u64),
                    content_range: Some(
                        range::content_range_text(
                            part.start as nat,
                            part.end as nat,
                            total as nat,
                        ),
                    ),
                    accept_ranges: "bytes"@,
                    range: Some(part),
                },
            ),
        },
    }
}

/// How a download of this content is answered.
pub fn plan_download(content: &ContentSource, range_header: Option<&str>) -> (res: Result<
    DownloadPlan,
    UnsatisfiableRange,
>)
    ensures
        match plan_for(*content, text::optional_str(range_header)) {
            Some(plan) => res matches Ok(made) && made@ == plan,
            None => res matches Err(error) && content.length() == Some(error.total),
        },
{
    if content.supports_range() {
        let total: u64 = match content.content_length() {
            Some(total) => total,
            None => 0,
        };
        if let Some(range_header) = range_header {
            return match range::parse_range_header(range_header, total) {
                Err(_) => Err(UnsatisfiableRange { total }),
                Ok(part) => {
                    proof {
                        range::granted_range_lies_in_file(range_header@, total);
                    }
                    Ok(
                        DownloadPlan {
                            status: 206,
                            content_length: Some(part.len()),
                            content_range: Some(part.content_range(total)),
                            accept_ranges: "bytes",
                            range: Some(part),
                        },
                    )
                },
            };
        }
        return Ok(
            DownloadPlan {
                status: 200,
                content_length: content.content_length(),
                content_range: None,
                accept_ranges: "bytes",
                range: None,
            },
        );
    }
    Ok(
        DownloadPlan {
            status: 200,
            content_length: content.content_length(),
            content_range: None,
            accept_ranges: "none",
            range: None,
        },
    )
}

/// Why a download is not answered with the content.
#[derive(Clone, Copy, Debug, PartialEq, Eq, Structural)]
pub enum DownloadRefusal {
    Session(SessionRejection),
    Range(UnsatisfiableRange),
}

impl DownloadRefusal {
    pub open spec fn code(self) -> u16 {
        match self {
            DownloadRefusal::Session(rejection) => rejection.code(),
            DownloadRefusal::Range(_) => 416,
        }
    }

    pub fn status(&self) -> (res: u16)
        ensures
            res == self.code(),
    {
        match self {
            DownloadRefusal::Session(rejection) => rejection.status(),
            DownloadRefusal::Range(range) => range.status(),
        }
    }

    pub fn message(&self) -> (res: &'static str)
        ensures
            match *self {
                DownloadRefusal::Session(rejection) => res@ == rejection.reason(),
                DownloadRefusal::Range(_) => res@ == "Invalid or unsatisfiable range"@,
            },
    {
        match self {
            DownloadRefusal::Session(rejection) => rejection.message(),
            DownloadRefusal::Range(range) => range.message(),
        }
    }

    /// The value of the `Content-Range` header of the answer, where it has one.
    pub fn content_range(&self) -> (res: Option<String>)
        ensures
            text::optional(res) == match *self {
                DownloadRefusal::Session(_) => None,
                DownloadRefusal::Range(range) => Some(
                    "bytes */"@ + decimal::decimal(range.total as nat),
                ),
            },
    {
        match self {
            DownloadRefusal::Session(_) => None,
            DownloadRefusal::Range(range) => Some(range.content_range()),
        }
    }
}

impl SharedSession {
    /// Why a download is not answered with the content: the session is asked first, then the
    /// range is read, and only then the place of the download is taken.
    pub open spec fn admission_refusal(
        self,
        token: Seq<char>,
        pin: Option<Seq<char>>,
        range_header: Option<Seq<char>>,
        now: Timestamp,
    ) -> Option<DownloadRefusal> {
        match self.download_refusal(token, pin, now) {
            Some(rejection) => Some(DownloadRefusal::Session(rejection)),
            None => match (plan_for(self.content, range_header), self.content.length()) {
                (None, Some(total)) => Some(
                    DownloadRefusal::Range(UnsatisfiableRange { total }),
                ),
                _ => match self.reserve_refusal() {
                    Some(rejection) => Some(DownloadRefusal::Session(rejection)),
                    None => None,
                },
            },
        }
    }

    /// Admits a download at the moment `now` and plans the answer.
    pub fn admit_download_at(
        &mut self,
        supplied_token: &str,
        supplied_pin: Option<&str>,
        range_header: Option<&str>,
        now: Timestamp,
    ) -> (res: Result<DownloadPlan, DownloadRefusal>)
        ensures
            match old(self).admission_refusal(
                supplied_token@,
                text::optional_str(supplied_pin),
                text::optional_str(range_header),
                now,
            ) {
                Some(refusal) => res == Err::<DownloadPlan, DownloadRefusal>(refusal)
                    && *final(self) == *old(self),
                None => res matches Ok(plan) && Some(plan@) == plan_for(
                    old(self).content,
                    text::optional_str(range_header),
                ) && final(self).reserved(*old(self)),
            },
    {
        match self.begin_download_at(supplied_token, supplied_pin, now) {
            Err(rejection) => return Err(DownloadRefusal::Session(rejection)),
            Ok(()) => {},
        }
        let plan = match plan_download(&self.content, range_header) {
            Err(range) => return Err(DownloadRefusal::Range(range)),
            Ok(plan) => plan,
        };
        match self.reserve_download() {
            Err(rejection) => Err(DownloadRefusal::Session(rejection)),
            Ok(()) => Ok(plan),
        }
    }

    /// Admits a download now, with the range that the request's headers ask for.
    pub fn admit_download(
        &mut self,
        supplied_token: &str,
        supplied_pin: Option<&str>,
        request_headers: &HeaderMap<HeaderValue>,
    ) -> (res: Result<DownloadPlan, DownloadRefusal>)
        ensures
            exists|now: Timestamp|
                now.on_clock() && match (#[trigger] old(self).admission_refusal(
                    supplied_token@,
                    text::optional_str(supplied_pin),
                    headers::first_text(headers::header_entries(*request_headers), "range"@),
                    now,
                )) {
                    Some(refusal) => res == Err::<DownloadPlan, DownloadRefusal>(refusal)
                        && *final(self) == *old(self),
                    None => res matches Ok(plan) && Some(plan@) == plan_for(
                        old(self).content,
                        headers::first_text(headers::header_entries(*request_headers), "range"@),
                    ) && final(self).reserved(*old(self)),
                },
    {
        let range_header = headers::header_text(request_headers, "range");
        let now = duration::now();
        self.admit_download_at(
            supplied_token,
            supplied_pin,
            text::borrow_optional(&range_header),
            now,
        )
    }
}

/// The value of the `Content-Disposition` header for a file of this name.
pub open spec fn disposition(file_name: Seq<char>) -> Seq<char> {
    "attachment; filename=\""@ + file_name.filter(|c: char| c != '"') + "\""@
}

pub fn content_disposition(file_name: &str) -> (res: String)
    ensures
        res@ == disposition(file_name@),
{
    let mut out = "attachment; filename=\"".to_string();
    out.append(text::remove_char(file_name, '"').as_str());
    out.append("\"");
    out
}

/// The headers of the answer to a download: the name of the file is left out where it cannot
/// stand in a header.
pub open spec fn answer_headers(file_name: Seq<char>, plan: PlanView) -> Seq<
    (Seq<char>, Seq<char>),
> {
    let typed = seq![("content-type"@, "application/octet-stream"@)];
    let named = if headers::is_header_value(disposition(file_name)) {
        typed.push(("content-disposition"@, disposition(file_name)))
    } else {
        typed
    };
    let ranged = named.push(("accept-ranges"@, plan.accept_ranges));
    let placed = match plan.content_range {
        Some(content_range) => ranged.push(("content-range"@, content_range)),
        None => ranged,
    };
    match plan.content_length {
        Some(length) => placed.push(("content-length"@, decimal::decimal(length as nat))),
        None => placed,
    }
}

fn push_header(pairs: &mut Vec<HeaderPair>, name: &str, value: String)
    ensures
        relay_protocol::pair_views(final(pairs)@) == relay_protocol::pair_views(old(pairs)@).push(
            (name@, value@),
        ),
{
    pairs.push(HeaderPair { name: name.to_string(), value });
    assert(relay_protocol::pair_views(pairs@) =~= relay_protocol::pair_views(old(pairs)@).push(
        (name@, value@),
    ));
}

/// The headers of the answer to a download of a file of this name.
pub fn download_headers(file_name: &str, plan: &DownloadPlan) -> (res: Vec<HeaderPair>)
    ensures
        relay_protocol::pair_views(res@) == answer_headers(file_name@, plan@),
{
    let mut pairs: Vec<HeaderPair> = Vec::new();
    push_header(&mut pairs, "content-type", "application/octet-stream".to_string());
    assert(relay_protocol::pair_views(pairs@)
        =~= seq![("content-type"@, "application/octet-stream"@)]);
    let value = content_disposition(file_name);
    if headers::valid_header_value(value.as_str()) {
        push_header(&mut pairs, "content-disposition", value);
    }
    push_header(&mut pairs, "accept-ranges", plan.accept_ranges.to_string());
    if let Some(content_range) = &plan.content_range {
        push_header(&mut pairs, "content-range", content_range.clone());
    }
    if let Some(length) = plan.content_length {
        push_header(&mut pairs, "content-length", decimal::format_u64(length));
    }
    pairs
}

} // verus!
