//! What the terminal of the sender shows.
pub mod laws;

use vstd::prelude::*;

use crate::decimal;
use crate::download_page;
use crate::duration;
use crate::session;
use crate::session::{ResolvedSendMode, SessionSnapshot};
use crate::text;

verus! {

/// The number of lines of the block that is drawn again and again.
pub const LIVE_BLOCK_LINES: u64 = 6;

/// The terminal sequence that clears the screen.
pub const CLEAR_SCREEN: &'static str = "\x1b[2J\x1b[H";

/// The terminal sequence that clears the live block.
pub const CLEAR_LIVE_BLOCK: &'static str = "\x1b[6F\x1b[J";

/// The QR code that `qrcode` draws for a text, or why it draws none.
pub uninterp spec fn qr_drawing(link: Seq<char>) -> Result<Seq<char>, Seq<char>>;

/// Trusted: `qrcode::QrCode::new` and its rendering with two modules per character, dark on
/// light. The drawing, or the error as `QrError` shows it, depends on the text alone.
#[verifier::external_body]
fn draw_qr(link: &str) -> (res: Result<String, String>)
    ensures
        match res {
            Ok(drawing) => qr_drawing(link@) == Ok::<Seq<char>, Seq<char>>(drawing@),
            Err(error) => qr_drawing(link@) == Err::<Seq<char>, Seq<char>>(error@),
        },
{
    let code = qrcode::QrCode::new(link.as_bytes()).map_err(|error| error.to_string())?;
    Ok(
        code.render::<qrcode::render::unicode::Dense1x2>()
            .dark_color(qrcode::render::unicode::Dense1x2::Dark)
            .light_color(qrcode::render::unicode::Dense1x2::Light)
            .build(),
    )
}

/// The QR code of a link, or why there is none.
pub fn render_qr(link: &str) -> (res: Result<String, String>)
    ensures
        match res {
            Ok(drawing) => qr_drawing(link@) == Ok::<Seq<char>, Seq<char>>(drawing@),
            Err(error) => qr_drawing(link@) == Err::<Seq<char>, Seq<char>>(error@),
        },
{
    draw_qr(link)
}

/// How far the transfer is.
pub open spec fn progress_word(view: session::SnapshotView) -> Seq<char> {
    if view.consumed {
        "consumed"@
    } else if view.active_download {
        "downloading"@
    } else {
        "waiting"@
    }
}

pub fn transfer_state(snapshot: &SessionSnapshot) -> (res: &'static str)
    ensures
        res@ == progress_word(snapshot@),
{
    if snapshot.consumed {
        "consumed"
    } else if snapshot.active_download {
        "downloading"
    } else {
        "waiting"
    }
}

/// The block that is drawn again and again.
pub open spec fn live_text(view: session::SnapshotView) -> Seq<char> {
    "\nStatus    : "@ + view.provider_status + "\nTTL       : "@ + duration::duration_text(
        view.remaining,
    ) + "\nDownloads : "@ + decimal::decimal(view.completed_downloads as nat)
        + "\nServed    : "@ + download_page::human_size(view.bytes_served) + "\nState     : "@
        + progress_word(view) + "\n"@
}

pub fn live_block(snapshot: &SessionSnapshot) -> (res: String)
    ensures
        res@ == live_text(snapshot@),
{
    let mut out = "\nStatus    : ".to_string();
    out.append(snapshot.provider_status.as_str());
    out.append("\nTTL       : ");
    out.append(duration::format_duration(snapshot.remaining).as_str());
    out.append("\nDownloads : ");
    out.append(decimal::format_u64(snapshot.completed_downloads).as_str());
    out.append("\nServed    : ");
    out.append(download_page::show_bytes(snapshot.bytes_served).as_str());
    out.append("\nState     : ");
    out.append(transfer_state(snapshot));
    out.append("\n");
    out
}

/// What is written for the live block, in place of the last one if `redraw_in_place` is set.
pub fn live_output(snapshot: &SessionSnapshot, redraw_in_place: bool) -> (res: String)
    ensures
        res@ == if redraw_in_place {
            CLEAR_LIVE_BLOCK@ + live_text(snapshot@)
        } else {
            live_text(snapshot@)
        },
{
    let block = live_block(snapshot);
    if redraw_in_place {
        let mut out = CLEAR_LIVE_BLOCK.to_string();
        out.append(block.as_str());
        out
    } else {
        block
    }
}

/// Why a session has ended.
pub open spec fn end_reason(view: session::SnapshotView) -> Seq<char> {
    if view.consumed {
        "Downloaded successfully in burn-after-reading mode"@
    } else if view.remaining.total() == 0 {
        "TTL expired"@
    } else {
        "Stopped"@
    }
}

/// What is written at the end of a session.
pub open spec fn final_text(view: session::SnapshotView, clear_screen: bool) -> Seq<char> {
    (if clear_screen {
        CLEAR_SCREEN@
    } else {
        CLEAR_LIVE_BLOCK@
    }) + "Beam ⚡️\nSession destroyed\nReason    : "@ + end_reason(view) + "\nServed    : "@
        + download_page::human_size(view.bytes_served) + "\nDownloads : "@ + decimal::decimal(
        view.completed_downloads as nat,
    ) + "\n"@
}

pub fn final_output(snapshot: &SessionSnapshot, clear_screen: bool) -> (res: String)
    ensures
        res@ == final_text(snapshot@, clear_screen),
{
    let mut out = if clear_screen {
        CLEAR_SCREEN.to_string()
    } else {
        CLEAR_LIVE_BLOCK.to_string()
    };
    out.append("Beam ⚡️\nSession destroyed\nReason    : ");
    out.append(
        if snapshot.consumed {
            "Downloaded successfully in burn-after-reading mode"
        } else if snapshot.remaining.is_zero() {
            "TTL expired"
        } else {
            "Stopped"
        },
    );
    out.append("\nServed    : ");
    out.append(download_page::show_bytes(snapshot.bytes_served).as_str());
    out.append("\nDownloads : ");
    out.append(decimal::format_u64(snapshot.completed_downloads).as_str());
    out.append("\n");
    out
}

/// A line with a label and a value.
pub open spec fn labelled(label: Seq<char>, value: Seq<char>) -> Seq<char> {
    label + " : "@ + value + "\n"@
}

/// The lines on the links of a session. In local mode the second link has a line where it has
/// a label; in global mode a link that is not known yet has none.
pub open spec fn link_lines(view: session::SnapshotView) -> Seq<char> {
    if view.mode is Local {
        labelled(view.primary_link_label, view.primary_link) + (match (
            view.secondary_link_label,
            view.secondary_link,
        ) {
            (Some(label), Some(link)) => labelled(label, link),
            _ => Seq::empty(),
        })
            + "Note      : The encrypted LAN link uses a temporary self-signed certificate.\n"@
            + "Warning   : Local mode uses HTTP for convenience. Use --global or --pin for sensitive files.\n"@
    } else if view.primary_link.len() > 0 {
        labelled(view.primary_link_label, view.primary_link)
    } else {
        Seq::empty()
    }
}

/// The lines that are written once, above the QR code.
pub open spec fn head_text(view: session::SnapshotView, clear_screen: bool) -> Seq<char> {
    (if clear_screen {
        CLEAR_SCREEN@
    } else {
        Seq::empty()
    }) + "Beam ⚡️\n"@ + (match view.mode {
        ResolvedSendMode::Local { .. } => "Local network"@,
        ResolvedSendMode::Global { .. } => "Global default"@,
    }) + "\n\n"@ + labelled(
        "Payload  "@,
        view.display_name + " ("@ + view.content_kind + ")"@,
    ) + labelled("Download "@, view.download_name) + labelled(
        "Size     "@,
        download_page::human_size(view.input_size),
    ) + labelled("Transport"@, view.transport_label) + labelled(
        "Security "@,
        (if view.once {
            "--once "@
        } else {
            Seq::empty()
        }) + (if view.requires_pin {
            "PIN required"@
        } else {
            "token URL"@
        }),
    ) + (match view.revealed_pin {
        Some(pin) => labelled("PIN      "@, pin),
        None => Seq::empty(),
    }) + link_lines(view) + (if view.warnings.len() > 0 {
        labelled("Warnings "@, text::joined(view.warnings, " · "@))
    } else {
        Seq::empty()
    })
}

/// What is written once at the start, and why it stops before its end where it does.
#[derive(Debug)]
pub struct StaticOutput {
    pub text: String,
    pub failure: Option<String>,
}

impl StaticOutput {
    /// The lines above the QR code, then the code, or an empty line where there is no link
    /// yet. Where no code can be drawn, the output stops in front of it.
    pub open spec fn shows(
        self,
        view: session::SnapshotView,
        clear_screen: bool,
        qr: Result<Seq<char>, Seq<char>>,
    ) -> bool {
        let head = head_text(view, clear_screen) + "\n"@;
        if view.primary_link.len() == 0 {
            self.text@ == head && self.failure is None
        } else {
            match qr {
                Ok(drawing) => self.text@ == head + drawing + "\n"@ && self.failure is None,
                Err(error) => self.text@ == head && text::optional(self.failure) == Some(error),
            }
        }
    }
}

fn append_labelled(out: &mut String, label: &str, value: &str)
    ensures
        final(out)@ == old(out)@ + labelled(label@, value@),
{
    let ghost before = out@;
    out.append(label);
    out.append(" : ");
    out.append(value);
    out.append("\n");
    assert(out@ =~= before + labelled(label@, value@));
}

fn append_links(out: &mut String, snapshot: &SessionSnapshot)
    ensures
        final(out)@ == old(out)@ + link_lines(snapshot@),
{
    let ghost before = out@;
    if snapshot.mode.is_local() {
        append_labelled(out, snapshot.primary_link_label, snapshot.primary_link.as_str());
        if let (Some(label), Some(link)) = (
            snapshot.secondary_link_label,
            &snapshot.secondary_link,
        ) {
            append_labelled(out, label, link.as_str());
        }
        out.append("Note      : The encrypted LAN link uses a temporary self-signed certificate.\n");
        out.append(
            "Warning   : Local mode uses HTTP for convenience. Use --global or --pin for sensitive files.\n",
        );
    } else if !snapshot.primary_link.as_str().is_empty() {
        append_labelled(out, snapshot.primary_link_label, snapshot.primary_link.as_str());
    }
    assert(out@ =~= before + link_lines(snapshot@));
}

/// The lines that are written once, above the QR code.
pub fn static_head(snapshot: &SessionSnapshot, clear_screen: bool) -> (res: String)
    ensures
        res@ == head_text(snapshot@, clear_screen),
{
    let mut out = String::new();
    if clear_screen {
        out.append(CLEAR_SCREEN);
    }
    out.append("Beam ⚡️\n");
    out.append(
        match snapshot.mode {
            ResolvedSendMode::Local { .. } => "Local network",
            ResolvedSendMode::Global { .. } => "Global default",
        },
    );
    out.append("\n\n");
    let mut payload = snapshot.display_name.clone();
    payload.append(" (");
    payload.append(snapshot.content_kind);
    payload.append(")");
    append_labelled(&mut out, "Payload  ", payload.as_str());
    append_labelled(&mut out, "Download ", snapshot.download_name.as_str());
    append_labelled(
        &mut out,
        "Size     ",
        download_page::show_bytes(snapshot.input_size).as_str(),
    );
    append_labelled(&mut out, "Transport", snapshot.transport_label.as_str());
    let mut security = String::new();
    if snapshot.once {
        security.append("--once ");
    }
    security.append(
        if snapshot.requires_pin {
            "PIN required"
        } else {
            "token URL"
        },
    );
    append_labelled(&mut out, "Security ", security.as_str());
    if let Some(pin) = &snapshot.revealed_pin {
        append_labelled(&mut out, "PIN      ", pin.as_str());
    }
    append_links(&mut out, snapshot);
    if snapshot.warnings.len() > 0 {
        append_labelled(&mut out, "Warnings ", text::join(&snapshot.warnings, " · ").as_str());
    }
    assert(out@ =~= head_text(snapshot@, clear_screen));
    out
}

/// What is written once at the start, with what came of drawing the QR code of the link.
pub fn static_output(
    snapshot: &SessionSnapshot,
    clear_screen: bool,
    qr: Option<Result<String, String>>,
) -> (res: StaticOutput)
    requires
        snapshot.primary_link@.len() > 0 ==> qr is Some,
    ensures
        qr matches Some(Ok(drawing)) ==> res.shows(snapshot@, clear_screen, Ok(drawing@)),
        qr matches Some(Err(error)) ==> res.shows(snapshot@, clear_screen, Err(error@)),
        qr is None ==> res.shows(snapshot@, clear_screen, Err(Seq::empty())),
{
    let mut out = static_head(snapshot, clear_screen);
    out.append("\n");
    if snapshot.primary_link.as_str().is_empty() {
        return StaticOutput { text: out, failure: None };
    }
    match qr {
        Some(Ok(drawing)) => {
            out.append(drawing.as_str());
            out.append("\n");
            StaticOutput { text: out, failure: None }
        },
        Some(Err(error)) => StaticOutput { text: out, failure: Some(error) },
        None => StaticOutput { text: out, failure: None },
    }
}

/// What is written once at the start.
pub fn render_static(snapshot: &SessionSnapshot, clear_screen: bool) -> (res: StaticOutput)
    ensures
        res.shows(snapshot@, clear_screen, qr_drawing(snapshot.primary_link@)),
{
    if snapshot.primary_link.as_str().is_empty() {
        static_output(snapshot, clear_screen, None)
    } else {
        let qr = render_qr(snapshot.primary_link.as_str());
        static_output(snapshot, clear_screen, Some(qr))
    }
}

/// How often a character stands in a text.
pub open spec fn occurrences(text: Seq<char>, c: char) -> nat
    decreases text.len(),
{
    if text.len() == 0 {
        0
    } else {
        occurrences(text.drop_last(), c) + if text.last() == c {
            1nat
        } else {
            0nat
        }
    }
}

proof fn lemma_occurrences_add(a: Seq<char>, b: Seq<char>, c: char)
    ensures
        occurrences(a + b, c) == occurrences(a, c) + occurrences(b, c),
    decreases b.len(),
{
    if b.len() == 0 {
        assert(a + b =~= a);
    } else {
        lemma_occurrences_add(a, b.drop_last(), c);
        assert((a + b).drop_last() =~= a + b.drop_last());
    }
}

proof fn lemma_no_occurrence(text: Seq<char>, c: char)
    requires
        forall|i: int| 0 <= i < text.len() ==> text[i] != c,
    ensures
        occurrences(text, c) == 0,
    decreases text.len(),
{
    if text.len() > 0 {
        lemma_no_occurrence(text.drop_last(), c);
    }
}

proof fn lemma_one_break(text: Seq<char>)
    requires
        text.len() > 0,
        text[0] == '\n',
        forall|i: int| 0 < i < text.len() ==> text[i] != '\n',
    ensures
        occurrences(text, '\n') == 1,
    decreases text.len(),
{
    if text.len() > 1 {
        lemma_one_break(text.drop_last());
    } else {
        assert(text.drop_last() =~= Seq::empty());
        assert(occurrences(text.drop_last(), '\n') == 0);
    }
}

proof fn lemma_number_has_no_break(n: nat)
    ensures
        occurrences(decimal::decimal(n), '\n') == 0,
{
    decimal::decimal_is_numeral(n);
    lemma_no_occurrence(decimal::decimal(n), '\n');
}

proof fn lemma_unit_has_no_break(count: nat, unit: Seq<char>)
    requires
        occurrences(unit, '\n') == 0,
    ensures
        forall|i: int|
            0 <= i < duration::unit_part(count, unit).len() ==> occurrences(
                #[trigger] duration::unit_part(count, unit)[i],
                '\n',
            ) == 0,
{
    lemma_number_has_no_break(count);
    lemma_occurrences_add(decimal::decimal(count), unit, '\n');
}

proof fn lemma_joined_has_no_break(parts: Seq<Seq<char>>)
    requires
        forall|i: int| 0 <= i < parts.len() ==> occurrences(#[trigger] parts[i], '\n') == 0,
    ensures
        occurrences(text::joined(parts, " "@), '\n') == 0,
    decreases parts.len(),
{
    reveal_strlit(" ");
    lemma_no_occurrence(" "@, '\n');
    if parts.len() > 1 {
        let front = parts.drop_last();
        assert forall|i: int| 0 <= i < front.len() implies occurrences(#[trigger] front[i], '\n')
            == 0 by {
            assert(front[i] == parts[i]);
        }
        lemma_joined_has_no_break(front);
        lemma_occurrences_add(text::joined(front, " "@), " "@, '\n');
        lemma_occurrences_add(text::joined(front, " "@) + " "@, parts.last(), '\n');
        assert(parts.last() == parts[parts.len() - 1]);
    }
}

proof fn lemma_duration_has_no_break(shown: duration::Duration)
    ensures
        occurrences(duration::duration_text(shown), '\n') == 0,
{
    reveal_strlit("d");
    reveal_strlit("h");
    reveal_strlit("m");
    reveal_strlit("s");
    reveal_strlit("0s");
    lemma_no_occurrence("d"@, '\n');
    lemma_no_occurrence("h"@, '\n');
    lemma_no_occurrence("m"@, '\n');
    lemma_no_occurrence("s"@, '\n');
    lemma_no_occurrence("0s"@, '\n');
    let secs = shown.secs as nat;
    lemma_unit_has_no_break(duration::days_part(secs), "d"@);
    lemma_unit_has_no_break(duration::hours_part(secs), "h"@);
    lemma_unit_has_no_break(duration::minutes_part(secs), "m"@);
    lemma_unit_has_no_break(duration::seconds_part(secs), "s"@);
    let parts = duration::duration_parts(secs);
    let days = duration::unit_part(duration::days_part(secs), "d"@);
    let hours = duration::unit_part(duration::hours_part(secs), "h"@);
    let minutes = duration::unit_part(duration::minutes_part(secs), "m"@);
    let seconds = duration::unit_part(duration::seconds_part(secs), "s"@);
    assert forall|i: int| 0 <= i < parts.len() implies occurrences(#[trigger] parts[i], '\n')
        == 0 by {
        let a = days.len();
        let b = a + hours.len();
        let c = b + minutes.len();
        if i < a {
            assert(parts[i] == days[i]);
        } else if i < b {
            assert(parts[i] == hours[i - a]);
        } else if i < c {
            assert(parts[i] == minutes[i - b]);
        } else {
            assert(parts[i] == seconds[i - c]);
        }
    }
    lemma_joined_has_no_break(parts);
}

/// The live block has as many lines as are cleared before it is drawn again, besides the line
/// breaks that the status or the shown size bring along.
pub proof fn live_block_has_fixed_height(view: session::SnapshotView)
    ensures
        occurrences(live_text(view), '\n') == LIVE_BLOCK_LINES + occurrences(
            view.provider_status,
            '\n',
        ) + occurrences(download_page::human_size(view.bytes_served), '\n'),
{
    reveal_strlit("\nStatus    : ");
    reveal_strlit("\nTTL       : ");
    reveal_strlit("\nDownloads : ");
    reveal_strlit("\nServed    : ");
    reveal_strlit("\nState     : ");
    reveal_strlit("\n");
    reveal_strlit("consumed");
    reveal_strlit("downloading");
    reveal_strlit("waiting");
    lemma_one_break("\nStatus    : "@);
    lemma_one_break("\nTTL       : "@);
    lemma_one_break("\nDownloads : "@);
    lemma_one_break("\nServed    : "@);
    lemma_one_break("\nState     : "@);
    lemma_one_break("\n"@);
    lemma_no_occurrence(progress_word(view), '\n');
    lemma_number_has_no_break(view.completed_downloads as nat);
    lemma_duration_has_no_break(view.remaining);
    let a = "\nStatus    : "@ + view.provider_status;
    lemma_occurrences_add("\nStatus    : "@, view.provider_status, '\n');
    let b = a + "\nTTL       : "@;
    lemma_occurrences_add(a, "\nTTL       : "@, '\n');
    let c = b + duration::duration_text(view.remaining);
    lemma_occurrences_add(b, duration::duration_text(view.remaining), '\n');
    let d = c + "\nDownloads : "@;
    lemma_occurrences_add(c, "\nDownloads : "@, '\n');
    let e = d + decimal::decimal(view.completed_downloads as nat);
    lemma_occurrences_add(d, decimal::decimal(view.completed_downloads as nat), '\n');
    let f = e + "\nServed    : "@;
    lemma_occurrences_add(e, "\nServed    : "@, '\n');
    let g = f + download_page::human_size(view.bytes_served);
    lemma_occurrences_add(f, download_page::human_size(view.bytes_served), '\n');
    let h = g + "\nState     : "@;
    lemma_occurrences_add(g, "\nState     : "@, '\n');
    let i = h + progress_word(view);
    lemma_occurrences_add(h, progress_word(view), '\n');
    lemma_occurrences_add(i, "\n"@, '\n');
}

} // verus!
