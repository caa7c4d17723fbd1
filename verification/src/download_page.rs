//! The page on which the content of a session can be downloaded.
pub mod laws;
pub mod template;

use vstd::prelude::*;

use indicatif::HumanBytes;

use crate::access;
use crate::decimal;
use crate::download_page::template::TEMPLATE;
use crate::duration;
use crate::duration::Timestamp;
use crate::session;
use crate::session::{ResolvedSendMode, SessionRejection, SessionSnapshot, SharedSession};
use crate::text;

verus! {

/// Where the project is found.
pub const PROJECT_URL: &'static str = "https://github.com/lopezlean/beam";

/// How `indicatif::HumanBytes` shows a number of bytes.
pub uninterp spec fn human_size(bytes: u64) -> Seq<char>;

/// Trusted: `indicatif::HumanBytes` with its `Display`. The text depends on the number alone;
/// below 1024 it is the number itself with the unit `B`.
#[verifier::external_body]
fn human_bytes(bytes: u64) -> (res: String)
    ensures
        res@ == human_size(bytes),
        bytes < 1024 ==> res@ == decimal::decimal(bytes as nat) + " B"@,
{
    HumanBytes(bytes).to_string()
}

/// A number of bytes as it is shown to a person.
pub fn show_bytes(bytes: u64) -> (res: String)
    ensures
        res@ == human_size(bytes),
        bytes < 1024 ==> res@ == decimal::decimal(bytes as nat) + " B"@,
{
    human_bytes(bytes)
}

/// What stands for a character in HTML.
pub open spec fn escaped_char(c: char) -> Seq<char> {
    if c == '&' {
        "&amp;"@
    } else if c == '<' {
        "&lt;"@
    } else if c == '>' {
        "&gt;"@
    } else if c == '"' {
        "&quot;"@
    } else if c == '\'' {
        "&#39;"@
    } else {
        seq![c]
    }
}

/// What stands for a text in HTML.
pub open spec fn escaped(value: Seq<char>) -> Seq<char>
    decreases value.len(),
{
    if value.len() == 0 {
        Seq::empty()
    } else {
        escaped(value.drop_last()) + escaped_char(value.last())
    }
}

/// The text as it stands in HTML, between tags or in the quotes of an attribute.
pub fn escape_html(value: &str) -> (res: String)
    ensures
        res@ == escaped(value@),
{
    let chars = text::chars_of(value);
    let mut out = String::new();
    let mut i: usize = 0;
    assert(out@ =~= Seq::<char>::empty());
    while i < chars.len()
        invariant
            chars@ == value@,
            i <= chars@.len(),
            out@ == escaped(chars@.take(i as int)),
        decreases chars@.len() - i,
    {
        let c = chars[i];
        assert(chars@.take(i + 1).drop_last() =~= chars@.take(i as int));
        if c == '&' {
            out.append("&amp;");
        } else if c == '<' {
            out.append("&lt;");
        } else if c == '>' {
            out.append("&gt;");
        } else if c == '"' {
            out.append("&quot;");
        } else if c == '\'' {
            out.append("&#39;");
        } else {
            let ghost before = out@;
            out.push(c);
            assert(out@ =~= before + seq![c]);
        }
        i = i + 1;
    }
    assert(chars@.take(i as int) =~= value@);
    out
}

/// The text as it stands in the quotes of an attribute.
pub fn escape_attr(value: &str) -> (res: String)
    ensures
        res@ == escaped(value@),
{
    escape_html(value)
}

/// The size that the page shows: that of the content to come, or that of what goes into an
/// archive.
pub open spec fn size_label(view: session::SnapshotView) -> Seq<char> {
    match view.content_length {
        Some(size) => human_size(size),
        None => human_size(view.input_size) + " input"@,
    }
}

/// What a visitor is told first.
pub open spec fn lead(mode: ResolvedSendMode) -> Seq<char> {
    match mode {
        ResolvedSendMode::Local { .. }
            => "Zero-install download for your local network. HTTP stays primary for convenience, with HTTPS available as an optional encrypted fallback."@,
        ResolvedSendMode::Global { .. }
            => "Zero-install download for any browser. Open the temporary Beam link, grab the file, and let the session expire on its own."@,
    }
}

fn lead_text(mode: &ResolvedSendMode) -> (res: &'static str)
    ensures
        res@ == lead(*mode),
{
    match mode {
        ResolvedSendMode::Local { .. }
            => "Zero-install download for your local network. HTTP stays primary for convenience, with HTTPS available as an optional encrypted fallback.",
        ResolvedSendMode::Global { .. }
            => "Zero-install download for any browser. Open the temporary Beam link, grab the file, and let the session expire on its own.",
    }
}

/// What the mode is called on the page.
pub open spec fn mode_name(mode: ResolvedSendMode) -> Seq<char> {
    match mode {
        ResolvedSendMode::Global { .. } => "Global default"@,
        ResolvedSendMode::Local { .. } => "Local mode"@,
    }
}

fn mode_label(mode: &ResolvedSendMode) -> (res: &'static str)
    ensures
        res@ == mode_name(*mode),
{
    match mode {
        ResolvedSendMode::Global { .. } => "Global default",
        ResolvedSendMode::Local { .. } => "Local mode",
    }
}

/// What protects the content.
pub open spec fn security(requires_pin: bool) -> Seq<char> {
    if requires_pin {
        "token URL + PIN"@
    } else {
        "token URL"@
    }
}

fn security_label(requires_pin: bool) -> (res: &'static str)
    ensures
        res@ == security(requires_pin),
{
    if requires_pin {
        "token URL + PIN"
    } else {
        "token URL"
    }
}

/// How long the content stays.
pub open spec fn stay(once: bool) -> Seq<char> {
    if once {
        "Burn after reading"@
    } else {
        "Available until expiry"@
    }
}

/// The part of the page that starts the download: a form for the PIN, or a link.
pub open spec fn action_panel(view: session::SnapshotView) -> Seq<char> {
    if view.requires_pin {
        "<section class=\"action-card action-card--hero\"><form class=\"download-form\" method=\"get\" action=\"/download/"@
            + escaped(view.token)
            + "\"><label class=\"form__label\" for=\"pin\">PIN</label><input class=\"form__input\" id=\"pin\" name=\"pin\" placeholder=\"123456\" inputmode=\"numeric\" autocomplete=\"one-time-code\" /><button class=\"form__button\" type=\"submit\" id=\"download-button\">Download now</button></form><p class=\"action-card__hint\">A PIN is required before the file can be downloaded.</p></section>"@
    } else {
        "<section class=\"quick-action\"><a class=\"quick-action__button\" href=\"/download/"@
            + escaped(view.token)
            + "\" id=\"download-button\">Download now</a></section>"@
    }
}

fn render_action_panel(snapshot: &SessionSnapshot) -> (res: String)
    ensures
        res@ == action_panel(snapshot@),
{
    let token = escape_attr(snapshot.token.as_str());
    if snapshot.requires_pin {
        let mut out =
            "<section class=\"action-card action-card--hero\"><form class=\"download-form\" method=\"get\" action=\"/download/".to_string();
        out.append(token.as_str());
        out.append(
            "\"><label class=\"form__label\" for=\"pin\">PIN</label><input class=\"form__input\" id=\"pin\" name=\"pin\" placeholder=\"123456\" inputmode=\"numeric\" autocomplete=\"one-time-code\" /><button class=\"form__button\" type=\"submit\" id=\"download-button\">Download now</button></form><p class=\"action-card__hint\">A PIN is required before the file can be downloaded.</p></section>",
        );
        out
    } else {
        let mut out =
            "<section class=\"quick-action\"><a class=\"quick-action__button\" href=\"/download/".to_string();
        out.append(token.as_str());
        out.append("\" id=\"download-button\">Download now</a></section>");
        out
    }
}

/// One row of the summary.
pub open spec fn row_text(label: Seq<char>, value: Seq<char>, accent: bool) -> Seq<char> {
    "<div class=\"sheet__row\"><dt class=\"sheet__label\">"@ + escaped(label)
        + "</dt><dd class=\""@ + (if accent {
        "sheet__value sheet__value--accent"@
    } else {
        "sheet__value"@
    }) + "\">"@ + escaped(value) + "</dd></div>"@
}

fn row(label: &str, value: &str, accent: bool) -> (res: String)
    ensures
        res@ == row_text(label@, value@, accent),
{
    let mut out = "<div class=\"sheet__row\"><dt class=\"sheet__label\">".to_string();
    out.append(escape_html(label).as_str());
    out.append("</dt><dd class=\"");
    out.append(
        if accent {
            "sheet__value sheet__value--accent"
        } else {
            "sheet__value"
        },
    );
    out.append("\">");
    out.append(escape_html(value).as_str());
    out.append("</dd></div>");
    out
}

/// The summary: what is sent, how, and where it is found. The second link has a row where it
/// has a label.
pub open spec fn summary_rows(view: session::SnapshotView) -> Seq<char> {
    let rows = row_text(
        "Payload"@,
        view.display_name + " ("@ + view.content_kind + ")"@,
        false,
    ) + row_text("Download"@, view.download_name, false) + row_text(
        "Size"@,
        size_label(view),
        false,
    ) + row_text("Transport"@, view.transport_label, false) + row_text(
        "Security"@,
        security(view.requires_pin),
        false,
    ) + row_text(view.primary_link_label, view.primary_link, true);
    match (view.secondary_link_label, view.secondary_link) {
        (Some(label), Some(link)) => rows + row_text(label, link, true),
        _ => rows,
    }
}

fn render_rows(snapshot: &SessionSnapshot, size_label: &str) -> (res: String)
    requires
        size_label@ == self::size_label(snapshot@),
    ensures
        res@ == summary_rows(snapshot@),
{
    let mut payload = snapshot.display_name.clone();
    payload.append(" (");
    payload.append(snapshot.content_kind);
    payload.append(")");
    let mut rows = row("Payload", payload.as_str(), false);
    rows.append(row("Download", snapshot.download_name.as_str(), false).as_str());
    rows.append(row("Size", size_label, false).as_str());
    rows.append(row("Transport", snapshot.transport_label.as_str(), false).as_str());
    rows.append(row("Security", security_label(snapshot.requires_pin), false).as_str());
    rows.append(row(snapshot.primary_link_label, snapshot.primary_link.as_str(), true).as_str());
    if let (Some(label), Some(link)) = (snapshot.secondary_link_label, &snapshot.secondary_link) {
        rows.append(row(label, link.as_str(), true).as_str());
    }
    rows
}

/// One notice.
pub open spec fn notice_text(class_name: Seq<char>, message: Seq<char>) -> Seq<char> {
    "<div class=\""@ + class_name + "\">"@ + escaped(message) + "</div>"@
}

fn notice(class_name: &str, message: &str) -> (res: String)
    ensures
        res@ == notice_text(class_name@, message@),
{
    let mut out = "<div class=\"".to_string();
    out.append(class_name);
    out.append("\">");
    out.append(escape_html(message).as_str());
    out.append("</div>");
    out
}

/// The notices for a list of warnings.
pub open spec fn warning_notices(warnings: Seq<Seq<char>>) -> Seq<char>
    decreases warnings.len(),
{
    if warnings.len() == 0 {
        Seq::empty()
    } else {
        warning_notices(warnings.drop_last()) + notice_text("notice"@, warnings.last())
    }
}

/// The notices of a page: on the PIN, then the warnings, then on the local links.
pub open spec fn all_notices(view: session::SnapshotView) -> Seq<char> {
    (if view.requires_pin {
        notice_text(
            "notice notice--accent"@,
            "This Beam session is protected by a secret URL and an additional PIN."@,
        )
    } else {
        Seq::empty()
    }) + warning_notices(view.warnings) + (if view.mode is Local {
        notice_text(
            "notice notice--warning"@,
            "Local mode uses HTTP for convenience. Use --global or --pin for sensitive files."@,
        ) + notice_text(
            "notice"@,
            "The encrypted LAN link uses a temporary self-signed certificate and may show a browser warning."@,
        )
    } else {
        Seq::empty()
    })
}

/// A page has notices.
pub open spec fn has_notices(view: session::SnapshotView) -> bool {
    view.requires_pin || view.warnings.len() > 0 || view.mode is Local
}

/// The part of the page with the notices, empty where there are none.
pub open spec fn notice_stack(view: session::SnapshotView) -> Seq<char> {
    if has_notices(view) {
        "<section class=\"notice-stack\" aria-label=\"Session notes\">"@ + all_notices(view)
            + "</section>"@
    } else {
        Seq::empty()
    }
}

fn render_notices(snapshot: &SessionSnapshot) -> (res: String)
    ensures
        res@ == notice_stack(snapshot@),
{
    if !snapshot.requires_pin && snapshot.warnings.len() == 0 && !snapshot.mode.is_local() {
        return String::new();
    }
    let mut notices = String::new();
    if snapshot.requires_pin {
        notices.append(
            notice(
                "notice notice--accent",
                "This Beam session is protected by a secret URL and an additional PIN.",
            ).as_str(),
        );
    }
    let ghost head = notices@;
    let ghost warnings = text::views(snapshot.warnings@);
    let mut i: usize = 0;
    assert(head + warning_notices(warnings.take(0)) =~= head);
    while i < snapshot.warnings.len()
        invariant
            warnings == text::views(snapshot.warnings@),
            i <= snapshot.warnings@.len(),
            notices@ == head + warning_notices(warnings.take(i as int)),
        decreases snapshot.warnings@.len() - i,
    {
        assert(warnings.take(i + 1).drop_last() =~= warnings.take(i as int));
        assert(warnings.take(i + 1).last() == snapshot.warnings@[i as int]@);
        let ghost before = warning_notices(warnings.take(i as int));
        let item = notice("notice", snapshot.warnings[i].as_str());
        notices.append(item.as_str());
        assert(head + before + item@ =~= head + (before + item@));
        i = i + 1;
    }
    assert(warnings.take(i as int) =~= warnings);
    if snapshot.mode.is_local() {
        notices.append(
            notice(
                "notice notice--warning",
                "Local mode uses HTTP for convenience. Use --global or --pin for sensitive files.",
            ).as_str(),
        );
        notices.append(
            notice(
                "notice",
                "The encrypted LAN link uses a temporary self-signed certificate and may show a browser warning.",
            ).as_str(),
        );
    }
    assert(notices@ =~= all_notices(snapshot@));
    let mut out = "<section class=\"notice-stack\" aria-label=\"Session notes\">".to_string();
    out.append(notices.as_str());
    out.append("</section>");
    out
}

/// The placeholders of a template with what takes their place, in the order in which they are
/// filled in.
pub open spec fn fields(view: session::SnapshotView) -> Seq<(Seq<char>, Seq<char>)> {
    seq![
        ("__PAGE_TITLE__"@, escaped("Beam · "@ + view.display_name)),
        ("__PROJECT_URL__"@, PROJECT_URL@),
        ("__BADGE__"@, view.mode.badge()),
        ("__DISPLAY_NAME__"@, escaped(view.display_name)),
        ("__MODE_LABEL__"@, escaped(mode_name(view.mode))),
        ("__LEAD__"@, escaped(lead(view.mode))),
        ("__TTL__"@, escaped(duration::duration_text(view.remaining))),
        ("__STATE__"@, escaped(stay(view.once))),
        ("__TOKEN__"@, escaped(view.token)),
        ("__EXPIRY_SECONDS__"@, decimal::decimal(view.expires_at.unix_secs() as nat)),
        ("__ACTION_PANEL__"@, action_panel(view)),
        ("__SUMMARY_ROWS__"@, summary_rows(view)),
        ("__NOTICES__"@, notice_stack(view)),
    ]
}

/// A template with the first `n` fields filled in.
pub open spec fn filled_in(template: Seq<char>, view: session::SnapshotView, n: nat) -> Seq<char>
    decreases n,
{
    if n == 0 {
        template
    } else {
        text::replaced(
            filled_in(template, view, (n - 1) as nat),
            fields(view)[n - 1].0,
            fields(view)[n - 1].1,
        )
    }
}

/// The page that a template gives for a session.
pub open spec fn page_text(template: Seq<char>, view: session::SnapshotView) -> Seq<char> {
    filled_in(template, view, fields(view).len())
}

/// Fills in one field.
fn replace(target: &mut String, placeholder: &str, value: &str)
    requires
        placeholder@.len() > 0,
    ensures
        final(target)@ == text::replaced(old(target)@, placeholder@, value@),
{
    *target = text::replace_all(target.as_str(), placeholder, value);
}

/// The page that a template gives for a session.
pub fn render_with(template: &str, snapshot: &SessionSnapshot) -> (res: String)
    ensures
        res@ == page_text(template@, snapshot@),
{
    proof {
        reveal_strlit("__PAGE_TITLE__");
        reveal_strlit("__PROJECT_URL__");
        reveal_strlit("__BADGE__");
        reveal_strlit("__DISPLAY_NAME__");
        reveal_strlit("__MODE_LABEL__");
        reveal_strlit("__LEAD__");
        reveal_strlit("__TTL__");
        reveal_strlit("__STATE__");
        reveal_strlit("__TOKEN__");
        reveal_strlit("__EXPIRY_SECONDS__");
        reveal_strlit("__ACTION_PANEL__");
        reveal_strlit("__SUMMARY_ROWS__");
        reveal_strlit("__NOTICES__");
    }
    let size_label = match snapshot.content_length {
        Some(size) => human_bytes(size),
        None => {
            let mut label = human_bytes(snapshot.input_size);
            label.append(" input");
            label
        },
    };
    let expiry_seconds = decimal::format_u128(duration::unix_secs_at(snapshot.expires_at));
    let mut page_title = "Beam · ".to_string();
    page_title.append(snapshot.display_name.as_str());
    let state = if snapshot.once {
        "Burn after reading"
    } else {
        "Available until expiry"
    };
    let ghost view = snapshot@;
    let mut page = template.to_string();
    assert(page@ == filled_in(template@, view, 0));
    replace(&mut page, "__PAGE_TITLE__", escape_html(page_title.as_str()).as_str());
    assert(page@ == filled_in(template@, view, 1));
    replace(&mut page, "__PROJECT_URL__", PROJECT_URL);
    assert(page@ == filled_in(template@, view, 2));
    replace(&mut page, "__BADGE__", snapshot.mode.badge_label());
    assert(page@ == filled_in(template@, view, 3));
    replace(
        &mut page,
        "__DISPLAY_NAME__",
        escape_html(snapshot.display_name.as_str()).as_str(),
    );
    assert(page@ == filled_in(template@, view, 4));
    replace(&mut page, "__MODE_LABEL__", escape_html(mode_label(&snapshot.mode)).as_str());
    assert(page@ == filled_in(template@, view, 5));
    replace(&mut page, "__LEAD__", escape_html(lead_text(&snapshot.mode)).as_str());
    assert(page@ == filled_in(template@, view, 6));
    replace(
        &mut page,
        "__TTL__",
        escape_html(duration::format_duration(snapshot.remaining).as_str()).as_str(),
    );
    assert(page@ == filled_in(template@, view, 7));
    replace(&mut page, "__STATE__", escape_html(state).as_str());
    assert(page@ == filled_in(template@, view, 8));
    replace(&mut page, "__TOKEN__", escape_attr(snapshot.token.as_str()).as_str());
    assert(page@ == filled_in(template@, view, 9));
    replace(&mut page, "__EXPIRY_SECONDS__", expiry_seconds.as_str());
    assert(page@ == filled_in(template@, view, 10));
    replace(&mut page, "__ACTION_PANEL__", render_action_panel(snapshot).as_str());
    assert(page@ == filled_in(template@, view, 11));
    replace(
        &mut page,
        "__SUMMARY_ROWS__",
        render_rows(snapshot, size_label.as_str()).as_str(),
    );
    assert(page@ == filled_in(template@, view, 12));
    replace(&mut page, "__NOTICES__", render_notices(snapshot).as_str());
    assert(page@ == filled_in(template@, view, 13));
    page
}

/// The download page of a session.
pub fn render(snapshot: &SessionSnapshot) -> (res: String)
    ensures
        res@ == page_text(TEMPLATE@, snapshot@),
{
    render_with(TEMPLATE, snapshot)
}

impl SharedSession {
    /// The page for a request with this token at the moment `now`.
    pub fn build_page_at(&self, supplied_token: &str, now: Timestamp) -> (res: Result<
        String,
        SessionRejection,
    >)
        ensures
            match self.page_refusal(supplied_token@, now) {
                Some(rejection) => res == Err::<String, SessionRejection>(rejection),
                None => res matches Ok(page) && page@ == page_text(TEMPLATE@, self.seen_at(now)),
            },
    {
        match self.admit_page_at(supplied_token, now) {
            Err(rejection) => Err(rejection),
            Ok(()) => {
                let snapshot = self.snapshot_at(now);
                Ok(render(&snapshot))
            },
        }
    }

    /// The page for a request with this token.
    pub fn build_page(&self, supplied_token: &str) -> (res: Result<String, SessionRejection>)
        ensures
            exists|now: Timestamp|
                now.on_clock() && match (#[trigger] self.page_refusal(supplied_token@, now)) {
                    Some(rejection) => res == Err::<String, SessionRejection>(rejection),
                    None => res matches Ok(page) && page@ == page_text(
                        TEMPLATE@,
                        self.seen_at(now),
                    ),
                },
    {
        let now = duration::now();
        self.build_page_at(supplied_token, now)
    }
}

/// `c` has a meaning of its own in HTML.
pub open spec fn is_markup(c: char) -> bool {
    c == '<' || c == '>' || c == '"' || c == '\''
}

/// An escaped text opens no tag and ends no attribute.
pub proof fn escaped_text_has_no_markup(value: Seq<char>, i: int)
    requires
        0 <= i < escaped(value).len(),
    ensures
        !is_markup(escaped(value)[i]),
    decreases value.len(),
{
    reveal_strlit("&amp;");
    reveal_strlit("&lt;");
    reveal_strlit("&gt;");
    reveal_strlit("&quot;");
    reveal_strlit("&#39;");
    let front = escaped(value.drop_last());
    if i < front.len() {
        escaped_text_has_no_markup(value.drop_last(), i);
    } else {
        assert(escaped(value)[i] == escaped_char(value.last())[i - front.len()]);
    }
}

/// Texts are escaped piece by piece.
pub proof fn escaping_works_piece_by_piece(a: Seq<char>, b: Seq<char>)
    ensures
        escaped(a + b) == escaped(a) + escaped(b),
    decreases b.len(),
{
    if b.len() == 0 {
        assert(a + b =~= a);
        assert(escaped(a) + escaped(b) =~= escaped(a));
    } else {
        let front = b.drop_last();
        escaping_works_piece_by_piece(a, front);
        assert((a + b).drop_last() =~= a + front);
        assert(escaped(a) + escaped(front) + escaped_char(b.last()) =~= escaped(a) + (escaped(front)
            + escaped_char(b.last())));
    }
}

/// The sign that a text begins with in HTML, with the length of what stands for it: one of the
/// five entities, or the first character itself.
pub open spec fn first_sign(text: Seq<char>) -> (char, int) {
    if text::starts_with(text, "&amp;"@) {
        ('&', 5)
    } else if text::starts_with(text, "&lt;"@) {
        ('<', 4)
    } else if text::starts_with(text, "&gt;"@) {
        ('>', 4)
    } else if text::starts_with(text, "&quot;"@) {
        ('"', 6)
    } else if text::starts_with(text, "&#39;"@) {
        ('\'', 5)
    } else {
        (text[0], 1)
    }
}

/// What a text in HTML stands for.
pub open spec fn unescaped(text: Seq<char>) -> Seq<char>
    decreases text.len(),
{
    if text.len() == 0 {
        text
    } else {
        proof {
            reveal_strlit("&amp;");
            reveal_strlit("&lt;");
            reveal_strlit("&gt;");
            reveal_strlit("&quot;");
            reveal_strlit("&#39;");
        }
        let (sign, length) = first_sign(text);
        seq![sign] + unescaped(text.skip(length))
    }
}

proof fn lemma_escaped_front(value: Seq<char>)
    requires
        value.len() > 0,
    ensures
        escaped(value) == escaped_char(value[0]) + escaped(value.skip(1)),
{
    let first = seq![value[0]];
    assert(value =~= first + value.skip(1));
    escaping_works_piece_by_piece(first, value.skip(1));
    assert(first.drop_last() =~= Seq::<char>::empty());
    assert(escaped(first.drop_last()) =~= Seq::<char>::empty());
    assert(escaped(first) =~= escaped_char(value[0]));
}

proof fn lemma_first_sign(c: char, rest: Seq<char>)
    ensures
        first_sign(escaped_char(c) + rest) == (c, escaped_char(c).len() as int),
        escaped_char(c).len() > 0,
{
    reveal_strlit("&amp;");
    reveal_strlit("&lt;");
    reveal_strlit("&gt;");
    reveal_strlit("&quot;");
    reveal_strlit("&#39;");
    let own = escaped_char(c);
    let text = own + rest;
    assert(text.subrange(0, own.len() as int) =~= own);
    assert(text[0] == own[0]);
    if own.len() > 1 {
        assert(text[1] == own[1]);
    }
    assert forall|pattern: Seq<char>|
        pattern.len() > 1 && #[trigger] text::starts_with(text, pattern) implies pattern[0]
        == text[0] && pattern[1] == text[1] by {
        let part = text.subrange(0, pattern.len() as int);
        assert(part[0] == text[0] && part[1] == text[1]);
    }
}

/// Escaping can be undone: an escaped text stands for the text itself.
pub proof fn escaping_can_be_undone(value: Seq<char>)
    ensures
        unescaped(escaped(value)) == value,
    decreases value.len(),
{
    if value.len() > 0 {
        let rest = value.skip(1);
        let own = escaped_char(value[0]);
        lemma_escaped_front(value);
        lemma_first_sign(value[0], escaped(rest));
        escaping_can_be_undone(rest);
        assert(escaped(value).skip(own.len() as int) =~= escaped(rest));
        assert(seq![value[0]] + rest =~= value);
    }
}

/// Escaping loses nothing: different texts stay different.
pub proof fn escaping_is_injective(a: Seq<char>, b: Seq<char>)
    requires
        escaped(a) == escaped(b),
    ensures
        a == b,
{
    escaping_can_be_undone(a);
    escaping_can_be_undone(b);
}

/// One of the five entities stands in the text at position `i`.
pub open spec fn entity_at(text: Seq<char>, i: int) -> bool {
    ||| text::occurs_at(text, "&amp;"@, i)
    ||| text::occurs_at(text, "&lt;"@, i)
    ||| text::occurs_at(text, "&gt;"@, i)
    ||| text::occurs_at(text, "&quot;"@, i)
    ||| text::occurs_at(text, "&#39;"@, i)
}

proof fn lemma_entity_stays(front: Seq<char>, back: Seq<char>, i: int)
    requires
        entity_at(front, i),
    ensures
        entity_at(front + back, i),
{
    assert forall|entity: Seq<char>| #[trigger] text::occurs_at(front, entity, i) implies
        text::occurs_at(front + back, entity, i) by {
        assert((front + back).subrange(i, i + entity.len()) =~= front.subrange(
            i,
            i + entity.len(),
        ));
    }
}

/// Each ampersand in an escaped text begins one of the five entities.
pub proof fn ampersands_begin_entities(value: Seq<char>, i: int)
    requires
        0 <= i < escaped(value).len(),
        escaped(value)[i] == '&',
    ensures
        entity_at(escaped(value), i),
    decreases value.len(),
{
    let front = escaped(value.drop_last());
    let own = escaped_char(value.last());
    if i < front.len() {
        ampersands_begin_entities(value.drop_last(), i);
        lemma_entity_stays(front, own, i);
    } else {
        reveal_strlit("&amp;");
        reveal_strlit("&lt;");
        reveal_strlit("&gt;");
        reveal_strlit("&quot;");
        reveal_strlit("&#39;");
        assert(escaped(value)[i] == own[i - front.len()]);
        assert(i == front.len());
        assert(escaped(value).subrange(i, i + own.len()) =~= own);
    }
}

/// A text of characters that are safe in a URL stands in HTML as it is, so the page leads to
/// the very token of the session.
pub proof fn url_safe_text_needs_no_escape(token: Seq<char>)
    requires
        forall|i: int| 0 <= i < token.len() ==> access::is_url_safe(#[trigger] token[i]),
    ensures
        escaped(token) == token,
    decreases token.len(),
{
    if token.len() > 0 {
        let front = token.drop_last();
        assert forall|i: int| 0 <= i < front.len() implies access::is_url_safe(
            #[trigger] front[i],
        ) by {
            assert(front[i] == token[i]);
        }
        url_safe_text_needs_no_escape(front);
        assert(access::is_url_safe(token[token.len() - 1]));
        assert(front + seq![token.last()] =~= token);
    }
}

} // verus!
