//! What holds of every session, whatever is done with it.
use vstd::prelude::*;

use crate::access;
use crate::content::ContentSource;
use crate::duration::Timestamp;
use crate::session::download;
use crate::session::download::DownloadRefusal;
use crate::session::{ResolvedSendMode, SessionRejection, SharedSession};
use crate::text;

verus! {

/// One thing that is done with a session.
pub ghost enum SessionStep {
    SetLinks { primary_link: String, secondary_link: Option<String> },
    SetProviderStatus { status: String },
    SetMode { mode: ResolvedSendMode },
    AddWarning { warning: String },
    Reserve,
    RecordBytes { count: nat },
    Finish { success: bool },
}

/// The step leads from one session to the other.
pub open spec fn leads(before: SharedSession, step: SessionStep, after: SharedSession) -> bool {
    match step {
        SessionStep::SetLinks { primary_link, secondary_link } => after.relinked(
            before,
            primary_link,
            secondary_link,
        ),
        SessionStep::SetProviderStatus { status } => after.restated(before, status),
        SessionStep::SetMode { mode } => after.switched(before, mode),
        SessionStep::AddWarning { warning } => after.warned(before, warning),
        SessionStep::Reserve => after.reserved(before),
        SessionStep::RecordBytes { count } => after.served(before, count as int),
        SessionStep::Finish { success } => after.finished(before, success),
    }
}

/// Whatever is done with a session, it stays well-formed, and its token, its content and its
/// rules of access stay what they were.
pub proof fn steps_keep_session_well_formed(
    before: SharedSession,
    step: SessionStep,
    after: SharedSession,
)
    requires
        before.well_formed(),
        leads(before, step, after),
    ensures
        after.well_formed(),
        after.same_subject(before),
{
    if let SessionStep::AddWarning { warning } = step {
        let warnings = text::views(before.state.warnings@);
        if !warnings.contains(warning@) {
            assert(text::views(after.state.warnings@) =~= warnings.push(warning@));
        }
    }
}

/// A consumed session stays consumed, whatever is done with it.
pub proof fn consumed_session_stays_consumed(
    before: SharedSession,
    step: SessionStep,
    after: SharedSession,
)
    requires
        before.state.consumed,
        leads(before, step, after),
    ensures
        after.state.consumed,
{
}

/// A consumed session gives its content to nobody, and answers those with the right token and
/// PIN in time that it was consumed.
pub proof fn consumed_session_refuses_downloads(
    session: SharedSession,
    token: Seq<char>,
    pin: Option<Seq<char>>,
    range_header: Option<Seq<char>>,
    now: Timestamp,
)
    requires
        session.state.consumed,
    ensures
        session.admission_refusal(token, pin, range_header, now) is Some,
        session.page_refusal(token, now) is None && access::pin_accepted(
            text::optional(session.access.pin_hash),
            pin,
        ) ==> session.admission_refusal(token, pin, range_header, now) == Some(
            DownloadRefusal::Session(SessionRejection::AlreadyConsumed),
        ),
{
}

/// While a burn-after-reading download runs, no other one can start.
pub proof fn once_download_runs_alone(before: SharedSession, after: SharedSession)
    requires
        before.access.once,
        before.reserve_refusal() is None,
        after.reserved(before),
    ensures
        after.reserve_refusal() == Some(SessionRejection::Busy),
{
}

/// A burn-after-reading download that fails leaves the session as it was before.
pub proof fn failed_download_frees_session(
    before: SharedSession,
    running: SharedSession,
    after: SharedSession,
)
    requires
        before.access.once,
        before.reserve_refusal() is None,
        running.reserved(before),
        after.finished(running, false),
    ensures
        after == before,
        after.reserve_refusal() is None,
{
}

/// A burn-after-reading download that succeeds uses the session up.
pub proof fn successful_download_burns_session(running: SharedSession, after: SharedSession)
    requires
        running.access.once,
        after.finished(running, true),
    ensures
        after.state.consumed,
        after.reserve_refusal() == Some(SessionRejection::AlreadyConsumed),
{
}

/// Without burn-after-reading, downloads never get in each other's way.
pub proof fn shared_downloads_run_side_by_side(before: SharedSession, after: SharedSession)
    requires
        before.well_formed(),
        !before.access.once,
        after.reserved(before),
    ensures
        before.reserve_refusal() is None,
        after.reserve_refusal() is None,
        after == before,
{
}

/// A burn-after-reading session has completed one download if it is consumed, none before.
pub open spec fn burns_once(session: SharedSession) -> bool {
    session.access.once ==> session.state.completed_downloads == if session.state.consumed {
        1int
    } else {
        0int
    }
}

/// A burn-after-reading session completes one download at most, as long as only a download
/// that has started comes to an end.
pub proof fn once_session_completes_one_download(
    before: SharedSession,
    step: SessionStep,
    after: SharedSession,
)
    requires
        before.well_formed(),
        burns_once(before),
        leads(before, step, after),
        before.access.once && step is Finish ==> before.state.active_download,
    ensures
        burns_once(after),
{
}

/// Each of the steps leads from one of the sessions to the next.
pub open spec fn is_run(sessions: Seq<SharedSession>, steps: Seq<SessionStep>) -> bool {
    &&& sessions.len() == steps.len() + 1
    &&& forall|i: int|
        0 <= i < steps.len() ==> leads(sessions[i], #[trigger] steps[i], sessions[i + 1])
}

/// The number of steps that end a download with success.
pub open spec fn successes(steps: Seq<SessionStep>) -> nat
    decreases steps.len(),
{
    if steps.len() == 0 {
        0
    } else {
        successes(steps.drop_last()) + if steps.last() == (SessionStep::Finish { success: true }) {
            1nat
        } else {
            0nat
        }
    }
}

/// The bytes that the steps record.
pub open spec fn recorded(steps: Seq<SessionStep>) -> nat
    decreases steps.len(),
{
    if steps.len() == 0 {
        0
    } else {
        recorded(steps.drop_last()) + match steps.last() {
            SessionStep::RecordBytes { count } => count,
            _ => 0,
        }
    }
}

/// Whatever is done with a session, and in whatever order: it has completed one more download
/// for each that ended with success, and has served the bytes that were recorded, as long as
/// the counters hold the numbers. A new session begins with none of either.
pub proof fn counters_add_up(sessions: Seq<SharedSession>, steps: Seq<SessionStep>)
    requires
        is_run(sessions, steps),
        sessions[0].state.completed_downloads + successes(steps) <= u64::MAX,
        sessions[0].state.bytes_served + recorded(steps) <= u64::MAX,
    ensures
        sessions.last().state.completed_downloads == sessions[0].state.completed_downloads
            + successes(steps),
        sessions.last().state.bytes_served == sessions[0].state.bytes_served + recorded(steps),
        sessions.last().same_subject(sessions[0]),
    decreases steps.len(),
{
    if steps.len() > 0 {
        let before = sessions.drop_last();
        let earlier = steps.drop_last();
        let end = steps.len() - 1;
        assert forall|i: int| 0 <= i < earlier.len() implies leads(
            before[i],
            #[trigger] earlier[i],
            before[i + 1],
        ) by {
            assert(earlier[i] == steps[i]);
        }
        counters_add_up(before, earlier);
        assert(leads(sessions[end], steps[end], sessions[end + 1]));
        assert(before.last() == sessions[end] && before[0] == sessions[0]);
    }
}

/// A wrong token is answered in the same way whatever the state of the session.
pub proof fn wrong_token_learns_nothing(
    session: SharedSession,
    token: Seq<char>,
    pin: Option<Seq<char>>,
    range_header: Option<Seq<char>>,
    now: Timestamp,
)
    requires
        token != session.token@,
    ensures
        session.page_refusal(token, now) == Some(SessionRejection::InvalidToken),
        session.admission_refusal(token, pin, range_header, now) == Some(
            DownloadRefusal::Session(SessionRejection::InvalidToken),
        ),
{
}

/// An expired session shows neither its page nor its content, and never does so again.
pub proof fn expired_session_stays_closed(
    session: SharedSession,
    pin: Option<Seq<char>>,
    range_header: Option<Seq<char>>,
    now: Timestamp,
    later: Timestamp,
)
    requires
        session.access.expires_at.nanos <= now.nanos <= later.nanos,
    ensures
        session.page_refusal(session.token@, later) == Some(SessionRejection::Expired),
        session.admission_refusal(session.token@, pin, range_header, later) == Some(
            DownloadRefusal::Session(SessionRejection::Expired),
        ),
{
}

/// A session with a PIN gives its content to nobody who does not supply a PIN of the same
/// digest.
pub proof fn pin_guards_content(
    session: SharedSession,
    token: Seq<char>,
    pin: Option<Seq<char>>,
    range_header: Option<Seq<char>>,
    now: Timestamp,
)
    requires
        session.access.pin_hash is Some,
        session.admission_refusal(token, pin, range_header, now) is None,
    ensures
        pin matches Some(supplied) && access::pin_digest(supplied)
            == session.access.pin_hash->Some_0@,
{
}

/// An archive is sent as a whole, without a length, and offers no ranges.
pub proof fn archive_is_sent_whole(content: ContentSource, range_header: Option<Seq<char>>)
    requires
        content.kind is DirectoryZip,
    ensures
        download::plan_for(content, range_header) matches Some(plan) && plan.status == 200
            && plan.range is None && plan.content_range is None && plan.content_length is None
            && plan.accept_ranges == "none"@,
{
}

/// A partial answer announces exactly the bytes that are sent, and they lie in the file.
pub proof fn partial_answer_lies_in_file(content: ContentSource, range_header: Option<Seq<char>>)
    ensures
        download::plan_for(content, range_header) matches Some(plan) ==> (plan.range matches Some(
            part,
        ) ==> {
            &&& plan.status == 206
            &&& content.length() matches Some(total) && part.within(total)
            &&& plan.content_length == Some((part.end - part.start + 1) as u64)
            &&& part.end - part.start < u64::MAX
        }),
{
    if let (Some(total), Some(header)) = (content.length(), range_header) {
        crate::session::range::granted_range_lies_in_file(header, total);
    }
}

/// The bytes counted for a series of reports, each of which gives a total.
pub open spec fn counted(totals: Seq<u64>) -> int
    decreases totals.len(),
{
    if totals.len() == 0 {
        0
    } else {
        counted(totals.drop_last()) + download::advance(
            if totals.len() == 1 {
                0
            } else {
                totals[totals.len() - 2]
            },
            totals.last(),
        )
    }
}

/// Growing reports count every byte once: together they come to the last of them.
pub proof fn progress_adds_up(totals: Seq<u64>)
    requires
        totals.len() > 0,
        forall|i: int, j: int| 0 <= i <= j < totals.len() ==> totals[i] <= totals[j],
    ensures
        counted(totals) == totals.last(),
    decreases totals.len(),
{
    if totals.len() > 1 {
        progress_adds_up(totals.drop_last());
        assert(totals.drop_last().last() == totals[totals.len() - 2]);
        assert(totals[totals.len() - 2] <= totals[totals.len() - 1]);
    } else {
        assert(counted(totals.drop_last()) == 0);
    }
}

/// The name of a file cannot end the quotes that it stands in.
pub proof fn file_name_stays_in_quotes(file_name: Seq<char>, i: int)
    requires
        "attachment; filename=\""@.len() <= i < download::disposition(file_name).len() - 1,
    ensures
        download::disposition(file_name)[i] != '"',
{
    reveal_strlit("\"");
    let kept = file_name.filter(|c: char| c != '"');
    let at = i - "attachment; filename=\""@.len();
    assert(download::disposition(file_name)[i] == kept[at]);
    file_name.lemma_filter_pred(|c: char| c != '"', at);
}

} // verus!
