//! What every download page shows.
use vstd::prelude::*;

use crate::access;
use crate::decimal;
use crate::download_page;
use crate::download_page::template;
use crate::download_page::template::TEMPLATE;
use crate::duration;
use crate::duration::Timestamp;
use crate::session::{SessionRejection, SessionSnapshot, SharedSession, SnapshotView};
use crate::text;
use crate::text::laws;

verus! {

/// The token has only characters that are safe in a URL.
pub open spec fn has_safe_token(view: SnapshotView) -> bool {
    forall|i: int| 0 <= i < view.token.len() ==> access::is_url_safe(#[trigger] view.token[i])
}

/// The page leads to the download of its own session, with a PIN and without: the form goes, or
/// the link leads, to the address under which the content of that token is found.
pub proof fn page_leads_to_the_download(view: SnapshotView)
    requires
        has_safe_token(view),
    ensures
        text::contains(
            download_page::action_panel(view),
            "\"/download/"@ + view.token + "\""@,
        ),
        text::contains(
            download_page::action_panel(view),
            if view.requires_pin {
                "method=\"get\" action=\"/download/"@ + view.token + "\""@
            } else {
                "href=\"/download/"@ + view.token + "\""@
            },
        ),
{
    broadcast use {laws::front_is_contained, laws::back_is_contained, laws::text_contains_itself};

    download_page::url_safe_text_needs_no_escape(view.token);
    let panel = download_page::action_panel(view);
    let link = "\"/download/"@ + view.token + "\""@;
    reveal_strlit("\"");
    reveal_strlit("\"/download/");
    if view.requires_pin {
        let head =
            "<section class=\"action-card action-card--hero\"><form class=\"download-form\" method=\"get\" action=\"/download/"@;
        let tail =
            "\"><label class=\"form__label\" for=\"pin\">PIN</label><input class=\"form__input\" id=\"pin\" name=\"pin\" placeholder=\"123456\" inputmode=\"numeric\" autocomplete=\"one-time-code\" /><button class=\"form__button\" type=\"submit\" id=\"download-button\">Download now</button></form><p class=\"action-card__hint\">A PIN is required before the file can be downloaded.</p></section>"@;
        reveal_strlit(
            "<section class=\"action-card action-card--hero\"><form class=\"download-form\" method=\"get\" action=\"/download/",
        );
        reveal_strlit(
            "\"><label class=\"form__label\" for=\"pin\">PIN</label><input class=\"form__input\" id=\"pin\" name=\"pin\" placeholder=\"123456\" inputmode=\"numeric\" autocomplete=\"one-time-code\" /><button class=\"form__button\" type=\"submit\" id=\"download-button\">Download now</button></form><p class=\"action-card__hint\">A PIN is required before the file can be downloaded.</p></section>",
        );
        reveal_strlit("method=\"get\" action=\"/download/");
        let start = "method=\"get\" action=\"/download/"@;
        assert(head.subrange(head.len() - start.len(), head.len() as int) =~= start);
        lemma_seam(head, start, view.token, tail, panel);
        assert(start.subrange(start.len() - 11, start.len() as int) =~= "\"/download/"@);
        assert(head.subrange(head.len() - 11, head.len() as int) =~= "\"/download/"@);
        lemma_seam(head, "\"/download/"@, view.token, tail, panel);
    } else {
        let head =
            "<section class=\"quick-action\"><a class=\"quick-action__button\" href=\"/download/"@;
        let tail = "\" id=\"download-button\">Download now</a></section>"@;
        reveal_strlit(
            "<section class=\"quick-action\"><a class=\"quick-action__button\" href=\"/download/",
        );
        reveal_strlit("\" id=\"download-button\">Download now</a></section>");
        reveal_strlit("href=\"/download/");
        let start = "href=\"/download/"@;
        assert(head.subrange(head.len() - start.len(), head.len() as int) =~= start);
        lemma_seam(head, start, view.token, tail, panel);
        assert(head.subrange(head.len() - 11, head.len() as int) =~= "\"/download/"@);
        lemma_seam(head, "\"/download/"@, view.token, tail, panel);
    }
}

/// The end of a text, what follows it and a quote stand in the whole.
proof fn lemma_seam(
    head: Seq<char>,
    start: Seq<char>,
    middle: Seq<char>,
    tail: Seq<char>,
    whole: Seq<char>,
)
    requires
        whole == head + middle + tail,
        start.len() <= head.len(),
        head.subrange(head.len() - start.len(), head.len() as int) == start,
        tail.len() > 0,
        tail[0] == '"',
    ensures
        text::contains(whole, start + middle + "\""@),
{
    reveal_strlit("\"");
    let part = start + middle + "\""@;
    let at = head.len() - start.len();
    let found = whole.subrange(at, at + part.len());
    assert(found =~= part) by {
        assert forall|i: int| 0 <= i < part.len() implies found[i] == part[i] by {
            if i < start.len() {
                assert(head.subrange(at, head.len() as int)[i] == start[i]);
            }
        }
    }
    assert(text::occurs_at(whole, part, at));
}

/// A PIN is asked for where the session has one, and only there.
pub proof fn page_asks_for_the_pin(view: SnapshotView)
    ensures
        view.requires_pin ==> text::contains(download_page::action_panel(view), "name=\"pin\""@),
        !view.requires_pin ==> text::contains(download_page::action_panel(view), "<a class="@),
{
    broadcast use {laws::front_is_contained, laws::back_is_contained, laws::text_contains_itself};

    if view.requires_pin {
        let tail =
            "\"><label class=\"form__label\" for=\"pin\">PIN</label><input class=\"form__input\" id=\"pin\" name=\"pin\" placeholder=\"123456\" inputmode=\"numeric\" autocomplete=\"one-time-code\" /><button class=\"form__button\" type=\"submit\" id=\"download-button\">Download now</button></form><p class=\"action-card__hint\">A PIN is required before the file can be downloaded.</p></section>"@;
        reveal_strlit(
            "\"><label class=\"form__label\" for=\"pin\">PIN</label><input class=\"form__input\" id=\"pin\" name=\"pin\" placeholder=\"123456\" inputmode=\"numeric\" autocomplete=\"one-time-code\" /><button class=\"form__button\" type=\"submit\" id=\"download-button\">Download now</button></form><p class=\"action-card__hint\">A PIN is required before the file can be downloaded.</p></section>",
        );
        reveal_strlit("name=\"pin\"");
        let part = "name=\"pin\""@;
        assert(tail.subrange(86, 96) =~= part);
        assert(text::occurs_at(tail, part, 86));
        assert(text::contains(tail, part));
    } else {
        let head =
            "<section class=\"quick-action\"><a class=\"quick-action__button\" href=\"/download/"@;
        reveal_strlit(
            "<section class=\"quick-action\"><a class=\"quick-action__button\" href=\"/download/",
        );
        reveal_strlit("<a class=");
        assert(head.subrange(30, 39) =~= "<a class="@);
        assert(text::occurs_at(head, "<a class="@, 30));
        assert(text::contains(head, "<a class="@));
    }
}

/// How the download is started depends on nothing but the token and whether there is a PIN.
pub proof fn names_do_not_change_the_download(a: SnapshotView, b: SnapshotView)
    requires
        a.token == b.token,
        a.requires_pin == b.requires_pin,
    ensures
        download_page::action_panel(a) == download_page::action_panel(b),
{
}

/// A row shows its label and its value, with what has a meaning in HTML escaped.
pub proof fn rows_show_label_and_value(label: Seq<char>, value: Seq<char>, accent: bool)
    ensures
        text::contains(
            download_page::row_text(label, value, accent),
            ">"@ + download_page::escaped(label) + "</dt>"@,
        ),
        text::contains(
            download_page::row_text(label, value, accent),
            ">"@ + download_page::escaped(value) + "</dd>"@,
        ),
{
    let class = if accent {
        "sheet__value sheet__value--accent"@
    } else {
        "sheet__value"@
    };
    let a = "<div class=\"sheet__row\"><dt class=\"sheet__label\">"@;
    let b = "</dt><dd class=\""@;
    let c = "\">"@;
    let d = "</dd></div>"@;
    let row = download_page::row_text(label, value, accent);
    let shown = download_page::escaped(label);
    let valued = download_page::escaped(value);
    reveal_strlit("<div class=\"sheet__row\"><dt class=\"sheet__label\">");
    reveal_strlit("</dt><dd class=\"");
    reveal_strlit("\">");
    reveal_strlit("</dd></div>");
    reveal_strlit(">");
    reveal_strlit("</dt>");
    reveal_strlit("</dd>");
    let first = ">"@ + shown + "</dt>"@;
    assert(row.subrange(a.len() - 1, a.len() - 1 + first.len()) =~= first);
    assert(text::occurs_at(row, first, a.len() - 1));
    let at = a.len() + shown.len() + b.len() + class.len() + 1int;
    let second = ">"@ + valued + "</dd>"@;
    assert(row.subrange(at, at + second.len()) =~= second);
    assert(text::occurs_at(row, second, at));
}

/// The summary tells what is sent, under which name it is saved, how it travels, what protects
/// it, and where it is found.
pub proof fn summary_shows_the_session(view: SnapshotView)
    ensures
        ({
            let rows = download_page::summary_rows(view);
            &&& text::contains(
                rows,
                download_page::row_text(
                    "Payload"@,
                    view.display_name + " ("@ + view.content_kind + ")"@,
                    false,
                ),
            )
            &&& text::contains(
                rows,
                download_page::row_text("Download"@, view.download_name, false),
            )
            &&& text::contains(
                rows,
                download_page::row_text("Transport"@, view.transport_label, false),
            )
            &&& text::contains(
                rows,
                download_page::row_text(
                    "Security"@,
                    if view.requires_pin {
                        "token URL + PIN"@
                    } else {
                        "token URL"@
                    },
                    false,
                ),
            )
            &&& text::contains(
                rows,
                download_page::row_text(view.primary_link_label, view.primary_link, true),
            )
            &&& text::contains(
                rows,
                download_page::row_text(
                    "Size"@,
                    match view.content_length {
                        Some(size) => download_page::human_size(size),
                        None => download_page::human_size(view.input_size) + " input"@,
                    },
                    false,
                ),
            )
            &&& view.secondary_link_label is Some && view.secondary_link is Some ==> text::contains(
                rows,
                download_page::row_text(
                    view.secondary_link_label->Some_0,
                    view.secondary_link->Some_0,
                    true,
                ),
            )
        }),
{
    broadcast use {laws::front_is_contained, laws::back_is_contained, laws::text_contains_itself};

    let a = download_page::row_text(
        "Payload"@,
        view.display_name + " ("@ + view.content_kind + ")"@,
        false,
    );
    let b = download_page::row_text("Download"@, view.download_name, false);
    let c = download_page::row_text("Size"@, download_page::size_label(view), false);
    let d = download_page::row_text("Transport"@, view.transport_label, false);
    let e = download_page::row_text("Security"@, download_page::security(view.requires_pin), false);
    let f = download_page::row_text(view.primary_link_label, view.primary_link, true);
    let rows = a + b + c + d + e + f;
    assert(text::contains(rows, a));
    assert(text::contains(rows, b));
    assert(text::contains(rows, c));
    assert(text::contains(rows, d));
    assert(text::contains(rows, e));
    assert(text::contains(rows, f));
}

/// The notices tell of the PIN where there is one, of every warning, and of the dangers of the
/// local network where the session is in one; a session without any of these has no notices.
pub proof fn notices_tell_what_matters(view: SnapshotView, i: int)
    ensures
        view.requires_pin ==> text::contains(
            download_page::notice_stack(view),
            download_page::notice_text(
                "notice notice--accent"@,
                "This Beam session is protected by a secret URL and an additional PIN."@,
            ),
        ),
        0 <= i < view.warnings.len() ==> text::contains(
            download_page::notice_stack(view),
            download_page::notice_text("notice"@, view.warnings[i]),
        ),
        view.mode is Local ==> text::contains(
            download_page::notice_stack(view),
            download_page::notice_text(
                "notice notice--warning"@,
                "Local mode uses HTTP for convenience. Use --global or --pin for sensitive files."@,
            ),
        ) && text::contains(
            download_page::notice_stack(view),
            download_page::notice_text(
                "notice"@,
                "The encrypted LAN link uses a temporary self-signed certificate and may show a browser warning."@,
            ),
        ),
        !view.requires_pin && view.warnings.len() == 0 && view.mode is Global
            ==> download_page::notice_stack(view) == Seq::<char>::empty(),
{
    broadcast use {laws::front_is_contained, laws::back_is_contained, laws::text_contains_itself};

    let accent = download_page::notice_text(
        "notice notice--accent"@,
        "This Beam session is protected by a secret URL and an additional PIN."@,
    );
    let plain = download_page::notice_text(
        "notice notice--warning"@,
        "Local mode uses HTTP for convenience. Use --global or --pin for sensitive files."@,
    );
    let signed = download_page::notice_text(
        "notice"@,
        "The encrypted LAN link uses a temporary self-signed certificate and may show a browser warning."@,
    );
    let warnings = download_page::warning_notices(view.warnings);
    let all = download_page::all_notices(view);
    if 0 <= i < view.warnings.len() {
        lemma_warning_is_shown(view.warnings, i);
        assert(text::contains(
            warnings,
            download_page::notice_text("notice"@, view.warnings[i]),
        ));
        assert(text::contains(all, download_page::notice_text("notice"@, view.warnings[i])));
    }
    if view.requires_pin {
        assert(text::contains(all, accent));
    }
    if view.mode is Local {
        assert(text::contains(plain + signed, plain));
        assert(text::contains(plain + signed, signed));
        assert(text::contains(all, plain));
        assert(text::contains(all, signed));
    }
}

proof fn lemma_warning_is_shown(warnings: Seq<Seq<char>>, i: int)
    requires
        0 <= i < warnings.len(),
    ensures
        text::contains(
            download_page::warning_notices(warnings),
            download_page::notice_text("notice"@, warnings[i]),
        ),
    decreases warnings.len(),
{
    broadcast use {laws::front_is_contained, laws::back_is_contained, laws::text_contains_itself};

    if i < warnings.len() - 1 {
        lemma_warning_is_shown(warnings.drop_last(), i);
        assert(warnings.drop_last()[i] == warnings[i]);
    }
}

/// A notice shows its message, with what has a meaning in HTML escaped.
pub proof fn notices_show_their_message(class_name: Seq<char>, message: Seq<char>)
    ensures
        text::contains(
            download_page::notice_text(class_name, message),
            download_page::escaped(message),
        ),
        text::starts_with(download_page::notice_text(class_name, message), "<div class=\""@),
        text::ends_with(download_page::notice_text(class_name, message), "</div>"@),
{
    broadcast use {laws::front_is_contained, laws::back_is_contained, laws::text_contains_itself};

    let shown = download_page::escaped(message);
    let all = download_page::notice_text(class_name, message);
    let rest = class_name + "\">"@ + shown + "</div>"@;
    assert(all =~= "<div class=\""@ + rest);
    laws::middle_is_contained(Seq::empty(), "<div class=\""@, rest);
    let front = "<div class=\""@ + class_name + "\">"@ + shown;
    laws::middle_is_contained(front, "</div>"@, Seq::empty());
}

/// The value that takes the place of a placeholder.
pub open spec fn is_filled_with(
    view: SnapshotView,
    placeholder: Seq<char>,
    value: Seq<char>,
) -> bool {
    exists|k: int|
        0 <= k < download_page::fields(view).len() && #[trigger] download_page::fields(view)[k] == (
        placeholder,
        value,
    )
}

/// Each placeholder of a template stands for what its name says.
pub proof fn placeholders_stand_for_what_they_say(view: SnapshotView)
    ensures
        is_filled_with(
            view,
            "__PAGE_TITLE__"@,
            download_page::escaped("Beam · "@ + view.display_name),
        ),
        is_filled_with(view, "__DISPLAY_NAME__"@, download_page::escaped(view.display_name)),
        is_filled_with(view, "__TOKEN__"@, download_page::escaped(view.token)),
        is_filled_with(
            view,
            "__TTL__"@,
            download_page::escaped(duration::duration_text(view.remaining)),
        ),
        is_filled_with(
            view,
            "__EXPIRY_SECONDS__"@,
            decimal::decimal(view.expires_at.unix_secs() as nat),
        ),
        is_filled_with(
            view,
            "__STATE__"@,
            download_page::escaped(
                if view.once {
                    "Burn after reading"@
                } else {
                    "Available until expiry"@
                },
            ),
        ),
        is_filled_with(
            view,
            "__BADGE__"@,
            if view.mode is Local {
                "LAN"@
            } else {
                "GLOBAL"@
            },
        ),
        is_filled_with(
            view,
            "__MODE_LABEL__"@,
            download_page::escaped(
                if view.mode is Local {
                    "Local mode"@
                } else {
                    "Global default"@
                },
            ),
        ),
        is_filled_with(
            view,
            "__LEAD__"@,
            download_page::escaped(
                if view.mode is Local {
                    "Zero-install download for your local network. HTTP stays primary for convenience, with HTTPS available as an optional encrypted fallback."@
                } else {
                    "Zero-install download for any browser. Open the temporary Beam link, grab the file, and let the session expire on its own."@
                },
            ),
        ),
        is_filled_with(view, "__PROJECT_URL__"@, "https://github.com/lopezlean/beam"@),
        is_filled_with(view, "__ACTION_PANEL__"@, download_page::action_panel(view)),
        is_filled_with(view, "__SUMMARY_ROWS__"@, download_page::summary_rows(view)),
        is_filled_with(view, "__NOTICES__"@, download_page::notice_stack(view)),
        download_page::fields(view).len() == 13,
{
    let all = download_page::fields(view);
    assert(all[0].0 == "__PAGE_TITLE__"@);
    assert(all[1].0 == "__PROJECT_URL__"@);
    assert(all[2].0 == "__BADGE__"@);
    assert(all[3].0 == "__DISPLAY_NAME__"@);
    assert(all[4].0 == "__MODE_LABEL__"@);
    assert(all[5].0 == "__LEAD__"@);
    assert(all[6].0 == "__TTL__"@);
    assert(all[7].0 == "__STATE__"@);
    assert(all[8].0 == "__TOKEN__"@);
    assert(all[9].0 == "__EXPIRY_SECONDS__"@);
    assert(all[10].0 == "__ACTION_PANEL__"@);
    assert(all[11].0 == "__SUMMARY_ROWS__"@);
    assert(all[12].0 == "__NOTICES__"@);
}

/// A text that a placeholder has: two underscores at its start and its end, and nowhere else two
/// in a row.
spec fn is_slot(slot: Seq<char>) -> bool {
    &&& slot.len() >= 7
    &&& slot[0] == '_'
    &&& slot[1] == '_'
    &&& slot[2] != '_'
    &&& slot[slot.len() - 1] == '_'
    &&& forall|i: int|
        2 <= i < slot.len() - 2 ==> !(#[trigger] slot[i] == '_' && slot[i + 1] == '_')
}

proof fn lemma_other_slot_is_absent(
    before: Seq<char>,
    slot: Seq<char>,
    behind: Seq<char>,
    other: Seq<char>,
)
    requires
        !before.contains('_'),
        !behind.contains('_'),
        is_slot(slot),
        is_slot(other),
        slot[2] != other[2] || slot[3] != other[3],
    ensures
        !text::contains(before + slot + behind, other),
{
    let all = before + slot + behind;
    if text::contains(all, other) {
        let at = choose|at: int| text::occurs_at(all, other, at);
        let found = all.subrange(at, at + other.len());
        assert(found == other);
        assert forall|i: int| 0 <= i < other.len() implies all[at + i] == #[trigger] other[i] by {
            assert(found[i] == other[i]);
        }
        assert(all[at + 0] == other[0] && all[at + 1] == other[1] && all[at + 2] == other[2]
            && all[at + 3] == other[3]);
        assert forall|i: int| 0 <= i < before.len() implies all[i] != '_' by {
            assert(all[i] == before[i]);
            assert(before.contains(before[i]));
        }
        assert forall|i: int| before.len() + slot.len() <= i < all.len() implies all[i]
            != '_' by {
            let j = i - before.len() - slot.len();
            assert(all[i] == behind[j]);
            assert(behind.contains(behind[j]));
        }
        let offset = at - before.len();
        assert(0 <= offset < slot.len());
        assert(all[at] == slot[offset]);
        let last = other.len() - 1;
        assert(all[at + last] == other[last]);
        assert(offset + last < slot.len());
        assert(all[at + 1] == slot[offset + 1]);
        assert(all[at + 2] == slot[offset + 2]);
        if offset > 0 {
            if offset >= 2 {
                assert(offset < slot.len() - 2);
                assert(!(slot[offset] == '_' && slot[offset + 1] == '_'));
            }
        } else {
            assert(all[at + 3] == slot[3]);
        }
    }
}

proof fn lemma_slots(view: SnapshotView)
    ensures
        forall|k: int|
            0 <= k < 13 ==> is_slot((#[trigger] download_page::fields(view)[k]).0),
        forall|j: int, k: int|
            0 <= j < 13 && 0 <= k < 13 && j != k ==> (#[trigger] download_page::fields(
                view,
            )[j]).0[2] != (#[trigger] download_page::fields(view)[k]).0[2]
                || download_page::fields(view)[j].0[3] != download_page::fields(view)[k].0[3],
{
    assert(is_slot("__PAGE_TITLE__"@) && "__PAGE_TITLE__"@[2] == 'P' && "__PAGE_TITLE__"@[3] == 'A') by {
        reveal_strlit("__PAGE_TITLE__");
    }
    assert(is_slot("__PROJECT_URL__"@) && "__PROJECT_URL__"@[2] == 'P' && "__PROJECT_URL__"@[3] == 'R') by {
        reveal_strlit("__PROJECT_URL__");
    }
    assert(is_slot("__BADGE__"@) && "__BADGE__"@[2] == 'B' && "__BADGE__"@[3] == 'A') by {
        reveal_strlit("__BADGE__");
    }
    assert(is_slot("__DISPLAY_NAME__"@) && "__DISPLAY_NAME__"@[2] == 'D' && "__DISPLAY_NAME__"@[3] == 'I') by {
        reveal_strlit("__DISPLAY_NAME__");
    }
    assert(is_slot("__MODE_LABEL__"@) && "__MODE_LABEL__"@[2] == 'M' && "__MODE_LABEL__"@[3] == 'O') by {
        reveal_strlit("__MODE_LABEL__");
    }
    assert(is_slot("__LEAD__"@) && "__LEAD__"@[2] == 'L' && "__LEAD__"@[3] == 'E') by {
        reveal_strlit("__LEAD__");
    }
    assert(is_slot("__TTL__"@) && "__TTL__"@[2] == 'T' && "__TTL__"@[3] == 'T') by {
        reveal_strlit("__TTL__");
    }
    assert(is_slot("__STATE__"@) && "__STATE__"@[2] == 'S' && "__STATE__"@[3] == 'T') by {
        reveal_strlit("__STATE__");
    }
    assert(is_slot("__TOKEN__"@) && "__TOKEN__"@[2] == 'T' && "__TOKEN__"@[3] == 'O') by {
        reveal_strlit("__TOKEN__");
    }
    assert(is_slot("__EXPIRY_SECONDS__"@) && "__EXPIRY_SECONDS__"@[2] == 'E' && "__EXPIRY_SECONDS__"@[3] == 'X') by {
        reveal_strlit("__EXPIRY_SECONDS__");
    }
    assert(is_slot("__ACTION_PANEL__"@) && "__ACTION_PANEL__"@[2] == 'A' && "__ACTION_PANEL__"@[3] == 'C') by {
        reveal_strlit("__ACTION_PANEL__");
    }
    assert(is_slot("__SUMMARY_ROWS__"@) && "__SUMMARY_ROWS__"@[2] == 'S' && "__SUMMARY_ROWS__"@[3] == 'U') by {
        reveal_strlit("__SUMMARY_ROWS__");
    }
    assert(is_slot("__NOTICES__"@) && "__NOTICES__"@[2] == 'N' && "__NOTICES__"@[3] == 'O') by {
        reveal_strlit("__NOTICES__");
    }
    let all = download_page::fields(view);
    assert(all[0].0 == "__PAGE_TITLE__"@);
    assert(all[1].0 == "__PROJECT_URL__"@);
    assert(all[2].0 == "__BADGE__"@);
    assert(all[3].0 == "__DISPLAY_NAME__"@);
    assert(all[4].0 == "__MODE_LABEL__"@);
    assert(all[5].0 == "__LEAD__"@);
    assert(all[6].0 == "__TTL__"@);
    assert(all[7].0 == "__STATE__"@);
    assert(all[8].0 == "__TOKEN__"@);
    assert(all[9].0 == "__EXPIRY_SECONDS__"@);
    assert(all[10].0 == "__ACTION_PANEL__"@);
    assert(all[11].0 == "__SUMMARY_ROWS__"@);
    assert(all[12].0 == "__NOTICES__"@);
}

proof fn lemma_filled(
    before: Seq<char>,
    behind: Seq<char>,
    view: SnapshotView,
    k: int,
    n: nat,
)
    requires
        0 <= k < 13,
        n <= 13,
        !before.contains('_'),
        !behind.contains('_'),
        forall|j: int|
            k < j < 13 ==> !text::contains(
                before + download_page::fields(view)[k].1 + behind,
                (#[trigger] download_page::fields(view)[j]).0,
            ),
    ensures
        download_page::filled_in(before + download_page::fields(view)[k].0 + behind, view, n) == (
        if n <= k {
            before + download_page::fields(view)[k].0 + behind
        } else {
            before + download_page::fields(view)[k].1 + behind
        }),
    decreases n,
{
    if n > 0 {
        lemma_filled(before, behind, view, k, (n - 1) as nat);
        lemma_slots(view);
        let all = download_page::fields(view);
        let slot = all[k].0;
        let template = before + slot + behind;
        let (from, to) = all[n - 1];
        if n - 1 < k {
            lemma_other_slot_is_absent(before, slot, behind, from);
            laws::replacing_what_is_absent_changes_nothing(template, from, to);
        } else if n - 1 == k {
            let at = before.len() as int;
            assert(template.subrange(at, at + slot.len()) =~= slot);
            assert forall|p: int| 0 <= p < at implies !text::occurs_at(template, slot, p) by {
                if text::occurs_at(template, slot, p) {
                    assert(template.subrange(p, p + slot.len())[0] == slot[0]);
                    assert(before[p] == '_');
                    assert(before.contains('_'));
                }
            }
            laws::replacing_fills_each_place(template, slot, to, at);
            assert(template.take(at) =~= before);
            assert(template.skip(at + slot.len()) =~= behind);
            assert(!text::contains(behind, slot)) by {
                if text::contains(behind, slot) {
                    let p = choose|p: int| text::occurs_at(behind, slot, p);
                    assert(behind.subrange(p, p + slot.len())[0] == slot[0]);
                    assert(behind[p] == '_');
                    assert(behind.contains('_'));
                }
            }
            laws::replacing_what_is_absent_changes_nothing(behind, slot, to);
        } else {
            assert(!text::contains(before + all[k].1 + behind, all[n - 1].0));
            laws::replacing_what_is_absent_changes_nothing(
                before + all[k].1 + behind,
                from,
                to,
            );
        }
    }
}

/// A placeholder in a template gives way to its value, and what stands around it stays: wherever
/// the placeholder stands, and as long as no value holds a placeholder of its own.
pub proof fn page_fills_in_each_placeholder(
    before: Seq<char>,
    behind: Seq<char>,
    view: SnapshotView,
    k: int,
)
    requires
        0 <= k < 13,
        !before.contains('_'),
        !behind.contains('_'),
        forall|j: int|
            k < j < 13 ==> !text::contains(
                before + download_page::fields(view)[k].1 + behind,
                (#[trigger] download_page::fields(view)[j]).0,
            ),
    ensures
        download_page::page_text(before + download_page::fields(view)[k].0 + behind, view) == before
            + download_page::fields(view)[k].1 + behind,
{
    lemma_filled(before, behind, view, k, 13);
}

/// Who has the token and comes in time is shown the page; nobody else is.
pub proof fn page_is_shown_with_the_token(
    session: SharedSession,
    supplied: &str,
    now: Timestamp,
    res: Result<String, SessionRejection>,
)
    requires
        call_ensures(SharedSession::build_page_at, (&session, supplied, now), res),
    ensures
        res is Ok <==> supplied@ == session.token@ && now.nanos < session.access.expires_at.nanos,
        supplied@ != session.token@ ==> res == Err::<String, SessionRejection>(
            SessionRejection::InvalidToken,
        ),
        supplied@ == session.token@ && now.nanos >= session.access.expires_at.nanos ==> res == Err::<
            String,
            SessionRejection,
        >(SessionRejection::Expired),
{
}

/// Each sign that has a meaning in HTML is written as its entity, and everything else as it is.
pub proof fn signs_are_written_as_entities(
    before: Seq<char>,
    sign: char,
    behind: Seq<char>,
    value: &str,
    res: String,
    front: &str,
    front_res: String,
    back: &str,
    back_res: String,
)
    requires
        value@ == before.push(sign) + behind,
        front@ == before,
        back@ == behind,
        call_ensures(download_page::escape_html, (value,), res),
        call_ensures(download_page::escape_html, (front,), front_res),
        call_ensures(download_page::escape_html, (back,), back_res),
    ensures
        res@ == front_res@ + (if sign == '&' {
            "&amp;"@
        } else if sign == '<' {
            "&lt;"@
        } else if sign == '>' {
            "&gt;"@
        } else if sign == '"' {
            "&quot;"@
        } else if sign == '\'' {
            "&#39;"@
        } else {
            seq![sign]
        }) + back_res@,
{
    download_page::escaping_works_piece_by_piece(before.push(sign), behind);
    assert(before.push(sign).drop_last() =~= before);
}

/// An attribute is written as a text is.
pub proof fn attributes_are_escaped_as_texts(value: &str, text: String, attribute: String)
    requires
        call_ensures(download_page::escape_html, (value,), text),
        call_ensures(download_page::escape_attr, (value,), attribute),
    ensures
        text@ == attribute@,
{
}

/// The page of a session is the template, filled in with what is seen of the session.
pub proof fn page_shows_the_session(
    session: SharedSession,
    supplied: &str,
    now: Timestamp,
    res: Result<String, SessionRejection>,
    seen: SessionSnapshot,
    page: String,
)
    requires
        call_ensures(SharedSession::build_page_at, (&session, supplied, now), res),
        call_ensures(SharedSession::snapshot_at, (&session, now), seen),
        call_ensures(download_page::render, (&seen,), page),
    ensures
        res matches Ok(shown) ==> shown@ == page@,
{
}

/// Without the token nobody is shown the page, whenever the request comes.
pub proof fn page_stays_with_the_invited(
    session: SharedSession,
    supplied: &str,
    res: Result<String, SessionRejection>,
)
    requires
        call_ensures(SharedSession::build_page, (&session, supplied), res),
    ensures
        supplied@ != session.token@ ==> res == Err::<String, SessionRejection>(
            SessionRejection::InvalidToken,
        ),
        res matches Err(rejection) ==> rejection == SessionRejection::InvalidToken || rejection
            == SessionRejection::Expired,
        supplied@ == session.token@ && res is Err ==> res == Err::<String, SessionRejection>(
            SessionRejection::Expired,
        ),
{
}

/// A template is filled in for a session in the same way as the page is.
pub proof fn template_is_filled_in(
    before: Seq<char>,
    behind: Seq<char>,
    template: &str,
    snapshot: SessionSnapshot,
    res: String,
)
    requires
        !before.contains('_'),
        !behind.contains('_'),
        template@ == before + "__NOTICES__"@ + behind,
        call_ensures(download_page::render_with, (template, &snapshot), res),
    ensures
        res@ == before + download_page::notice_stack(snapshot@) + behind,
{
    placeholders_stand_for_what_they_say(snapshot@);
    assert(download_page::fields(snapshot@)[12].0 == "__NOTICES__"@);
    page_fills_in_each_placeholder(before, behind, snapshot@, 12);
}

/// A page without anything to note has no notices, and one has only those that apply.
pub proof fn notices_stand_only_where_they_apply(view: SnapshotView)
    requires
        view.warnings.len() == 0,
    ensures
        ({
            let frame = "<section class=\"notice-stack\" aria-label=\"Session notes\">"@;
            let guarded = download_page::notice_text(
                "notice notice--accent"@,
                "This Beam session is protected by a secret URL and an additional PIN."@,
            );
            let local = download_page::notice_text(
                "notice notice--warning"@,
                "Local mode uses HTTP for convenience. Use --global or --pin for sensitive files."@,
            ) + download_page::notice_text(
                "notice"@,
                "The encrypted LAN link uses a temporary self-signed certificate and may show a browser warning."@,
            );
            let stack = download_page::notice_stack(view);
            &&& !view.requires_pin && view.mode is Global ==> stack == Seq::<char>::empty()
            &&& view.requires_pin && view.mode is Global ==> stack == frame + guarded
                + "</section>"@
            &&& !view.requires_pin && view.mode is Local ==> stack == frame + local
                + "</section>"@
            &&& view.requires_pin && view.mode is Local ==> stack == frame + (guarded + local)
                + "</section>"@
        }),
{
    let none = download_page::warning_notices(view.warnings);
    assert(none == Seq::<char>::empty());
    let guarded = download_page::notice_text(
        "notice notice--accent"@,
        "This Beam session is protected by a secret URL and an additional PIN."@,
    );
    let local = download_page::notice_text(
        "notice notice--warning"@,
        "Local mode uses HTTP for convenience. Use --global or --pin for sensitive files."@,
    ) + download_page::notice_text(
        "notice"@,
        "The encrypted LAN link uses a temporary self-signed certificate and may show a browser warning."@,
    );
    let notices = download_page::all_notices(view);
    if view.requires_pin && view.mode is Global {
        assert(notices =~= guarded);
    }
    if !view.requires_pin && view.mode is Local {
        assert(notices =~= local);
    }
    if view.requires_pin && view.mode is Local {
        assert(notices =~= guarded + local);
    }
}

/// One more warning makes one more notice, and changes nothing else.
pub proof fn each_warning_has_one_notice(before: SnapshotView, after: SnapshotView, warning: Seq<char>)
    requires
        before.requires_pin == after.requires_pin,
        before.mode == after.mode,
        after.warnings == before.warnings.push(warning),
        before.requires_pin || before.warnings.len() > 0 || before.mode is Local,
    ensures
        download_page::notice_stack(after).len() == download_page::notice_stack(before).len()
            + download_page::notice_text("notice"@, warning).len(),
{
    assert(after.warnings.drop_last() =~= before.warnings);
}

proof fn lemma_beginning_is_kept(
    whole: Seq<char>,
    slot: Seq<char>,
    value: Seq<char>,
    part: Seq<char>,
)
    requires
        slot.len() > 0,
        part.len() > 0,
        part.is_prefix_of(whole),
        !slot.contains(part.last()),
        !text::contains(part, slot),
    ensures
        part.is_prefix_of(text::replaced(whole, slot, value)),
    decreases part.len(),
{
    if whole.len() >= slot.len() {
        if text::starts_with(whole, slot) {
            let front = whole.subrange(0, slot.len() as int);
            assert(front == slot);
            if slot.len() <= part.len() {
                assert(part.subrange(0, slot.len() as int) =~= slot);
                assert(text::occurs_at(part, slot, 0));
            } else {
                assert(front[part.len() - 1] == part.last());
            }
        }
        let rest = whole.skip(1);
        let after = text::replaced(rest, slot, value);
        assert(text::replaced(whole, slot, value) == seq![whole[0]] + after);
        assert(whole[0] == part[0]);
        if part.len() > 1 {
            let tail = part.skip(1);
            assert(tail =~= rest.subrange(0, tail.len() as int));
            assert(!text::contains(tail, slot)) by {
                if text::contains(tail, slot) {
                    let at = choose|at: int| text::occurs_at(tail, slot, at);
                    assert(part.subrange(at + 1, at + 1 + slot.len()) =~= tail.subrange(
                        at,
                        at + slot.len(),
                    ));
                    assert(text::occurs_at(part, slot, at + 1));
                }
            }
            lemma_beginning_is_kept(rest, slot, value, tail);
            assert(part =~= seq![whole[0]] + tail);
            assert(part =~= (seq![whole[0]] + after).subrange(0, part.len() as int));
        } else {
            assert(part =~= (seq![whole[0]] + after).subrange(0, 1));
        }
    }
}

/// What begins and ends with a character that the placeholder does not have, and does not hold
/// the placeholder, is still there when the placeholder has given way.
proof fn lemma_part_is_kept(
    whole: Seq<char>,
    slot: Seq<char>,
    value: Seq<char>,
    part: Seq<char>,
    at: int,
)
    requires
        slot.len() > 0,
        part.len() > 0,
        text::occurs_at(whole, part, at),
        !slot.contains(part[0]),
        !slot.contains(part.last()),
        !text::contains(part, slot),
    ensures
        text::contains(text::replaced(whole, slot, value), part),
    decreases whole.len(),
{
    broadcast use laws::back_is_contained;

    let found = whole.subrange(at, at + part.len());
    assert(found == part);
    if whole.len() >= slot.len() {
        if text::starts_with(whole, slot) {
            let front = whole.subrange(0, slot.len() as int);
            assert(front == slot);
            if at < slot.len() {
                assert(found[0] == part[0]);
                assert(front[at] == part[0]);
            } else {
                let rest = whole.skip(slot.len() as int);
                let next = at - slot.len();
                assert(rest.subrange(next, next + part.len()) =~= part);
                lemma_part_is_kept(rest, slot, value, part, next);
            }
        } else if at > 0 {
            let rest = whole.skip(1);
            assert(rest.subrange(at - 1, at - 1 + part.len()) =~= part);
            lemma_part_is_kept(rest, slot, value, part, at - 1);
        } else {
            lemma_beginning_is_kept(whole, slot, value, part);
            laws::starts_and_ends_are_parts(text::replaced(whole, slot, value), part);
            assert(text::occurs_at(text::replaced(whole, slot, value), part, 0));
        }
    }
}

/// A placeholder between two characters that it does not have gives way to its value.
proof fn lemma_place_is_filled(
    whole: Seq<char>,
    slot: Seq<char>,
    value: Seq<char>,
    first: char,
    last: char,
    at: int,
)
    requires
        slot.len() > 1,
        text::occurs_at(whole, seq![first] + slot + seq![last], at),
        !slot.contains(first),
        !slot.contains(last),
    ensures
        text::contains(
            text::replaced(whole, slot, value),
            seq![first] + value + seq![last],
        ),
    decreases whole.len(),
{
    broadcast use laws::back_is_contained;

    let place = seq![first] + slot + seq![last];
    let filled = seq![first] + value + seq![last];
    let found = whole.subrange(at, at + place.len());
    assert(found == place);
    if text::starts_with(whole, slot) {
        let front = whole.subrange(0, slot.len() as int);
        assert(front == slot);
        if at < slot.len() {
            assert(found[0] == first);
            assert(front[at] == first);
        } else {
            let rest = whole.skip(slot.len() as int);
            let next = at - slot.len();
            assert(rest.subrange(next, next + place.len()) =~= place);
            lemma_place_is_filled(rest, slot, value, first, last, next);
        }
    } else if at > 0 {
        let rest = whole.skip(1);
        assert(rest.subrange(at - 1, at - 1 + place.len()) =~= place);
        lemma_place_is_filled(rest, slot, value, first, last, at - 1);
    } else {
        let rest = whole.skip(1);
        let tail = rest.skip(slot.len() as int);
        assert forall|i: int| 0 <= i < place.len() implies whole[i] == #[trigger] place[i] by {
            assert(found[i] == place[i]);
        }
        assert(rest.subrange(0, slot.len() as int) =~= slot) by {
            assert forall|i: int| 0 <= i < slot.len() implies rest[i] == slot[i] by {
                assert(place[i + 1] == slot[i]);
                assert(whole[i + 1] == place[i + 1]);
            }
        }
        assert(tail[0] == last) by {
            assert(place[slot.len() as int + 1] == last);
        }
        assert(!text::contains(seq![last], slot)) by {
            if text::contains(seq![last], slot) {
                let p = choose|p: int| text::occurs_at(seq![last], slot, p);
                assert(false);
            }
        }
        assert(seq![last] =~= tail.subrange(0, 1));
        lemma_beginning_is_kept(tail, slot, value, seq![last]);
        let after = text::replaced(tail, slot, value);
        let all = text::replaced(whole, slot, value);
        assert(text::starts_with(rest, slot));
        assert(text::replaced(rest, slot, value) == value + after);
        assert(all == seq![whole[0]] + (value + after));
        assert(whole[0] == first) by {
            assert(place[0] == first);
        }
        assert(after[0] == last) by {
            assert(seq![last][0] == after[0]);
        }
        assert(all.subrange(0, filled.len() as int) =~= filled);
        assert(text::occurs_at(all, filled, 0));
    }
}

proof fn lemma_frame_hides_no_slot(value: Seq<char>, first: char, last: char, slot: Seq<char>)
    requires
        slot.len() > 0,
        !slot.contains(first),
        !slot.contains(last),
        !text::contains(value, slot),
    ensures
        !text::contains(seq![first] + value + seq![last], slot),
{
    let all = seq![first] + value + seq![last];
    if text::contains(all, slot) {
        let at = choose|at: int| text::occurs_at(all, slot, at);
        let found = all.subrange(at, at + slot.len());
        assert(found == slot);
        if at == 0 {
            assert(found[0] == first);
        } else if at + slot.len() == all.len() {
            assert(found[slot.len() - 1] == last);
        } else {
            assert(value.subrange(at - 1, at - 1 + slot.len()) =~= found);
            assert(text::occurs_at(value, slot, at - 1));
        }
    }
}

/// The character stands in no placeholder.
spec fn sets_off(view: SnapshotView, c: char) -> bool {
    c != '_' && forall|j: int| 0 <= j < 13 ==> !(#[trigger] download_page::fields(view)[j]).0.contains(c)
}

proof fn lemma_part_of_page(
    template: Seq<char>,
    view: SnapshotView,
    k: int,
    first: char,
    last: char,
    n: nat,
)
    requires
        0 <= k < 13,
        n <= 13,
        sets_off(view, first),
        sets_off(view, last),
        text::contains(template, seq![first] + download_page::fields(view)[k].0 + seq![last]),
        forall|j: int|
            k < j < 13 ==> !text::contains(
                download_page::fields(view)[k].1,
                (#[trigger] download_page::fields(view)[j]).0,
            ),
    ensures
        text::contains(
            download_page::filled_in(template, view, n),
            seq![first] + (if n <= k {
                download_page::fields(view)[k].0
            } else {
                download_page::fields(view)[k].1
            }) + seq![last],
        ),
    decreases n,
{
    if n > 0 {
        lemma_part_of_page(template, view, k, first, last, (n - 1) as nat);
        lemma_slots(view);
        let all = download_page::fields(view);
        let (from, to) = all[n - 1];
        let slot = all[k].0;
        let before = download_page::filled_in(template, view, (n - 1) as nat);
        assert(is_slot(from));
        assert(!from.contains(first) && !from.contains(last));
        if n - 1 == k {
            let place = seq![first] + slot + seq![last];
            let at = choose|at: int| text::occurs_at(before, place, at);
            lemma_place_is_filled(before, from, to, first, last, at);
        } else {
            let inner = if n - 1 < k {
                slot
            } else {
                all[k].1
            };
            let place = seq![first] + inner + seq![last];
            if n - 1 < k {
                assert(!seq![first].contains('_'));
                assert(!seq![last].contains('_'));
                lemma_other_slot_is_absent(seq![first], slot, seq![last], from);
            } else {
                assert(!text::contains(all[k].1, all[n - 1].0));
                lemma_frame_hides_no_slot(inner, first, last, from);
            }
            let at = choose|at: int| text::occurs_at(before, place, at);
            assert(place[0] == first && place.last() == last);
            lemma_part_is_kept(before, from, to, place, at);
        }
    }
}

proof fn lemma_capitals()
    ensures
        is_capital("__PAGE_TITLE__"@),
        is_capital("__PROJECT_URL__"@),
        is_capital("__BADGE__"@),
        is_capital("__DISPLAY_NAME__"@),
        is_capital("__MODE_LABEL__"@),
        is_capital("__LEAD__"@),
        is_capital("__TTL__"@),
        is_capital("__STATE__"@),
        is_capital("__TOKEN__"@),
        is_capital("__EXPIRY_SECONDS__"@),
        is_capital("__ACTION_PANEL__"@),
        is_capital("__SUMMARY_ROWS__"@),
        is_capital("__NOTICES__"@),
{
    assert(is_capital("__PAGE_TITLE__"@)) by {
        reveal_strlit("__PAGE_TITLE__");
    }
    assert(is_capital("__PROJECT_URL__"@)) by {
        reveal_strlit("__PROJECT_URL__");
    }
    assert(is_capital("__BADGE__"@)) by {
        reveal_strlit("__BADGE__");
    }
    assert(is_capital("__DISPLAY_NAME__"@)) by {
        reveal_strlit("__DISPLAY_NAME__");
    }
    assert(is_capital("__MODE_LABEL__"@)) by {
        reveal_strlit("__MODE_LABEL__");
    }
    assert(is_capital("__LEAD__"@)) by {
        reveal_strlit("__LEAD__");
    }
    assert(is_capital("__TTL__"@)) by {
        reveal_strlit("__TTL__");
    }
    assert(is_capital("__STATE__"@)) by {
        reveal_strlit("__STATE__");
    }
    assert(is_capital("__TOKEN__"@)) by {
        reveal_strlit("__TOKEN__");
    }
    assert(is_capital("__EXPIRY_SECONDS__"@)) by {
        reveal_strlit("__EXPIRY_SECONDS__");
    }
    assert(is_capital("__ACTION_PANEL__"@)) by {
        reveal_strlit("__ACTION_PANEL__");
    }
    assert(is_capital("__SUMMARY_ROWS__"@)) by {
        reveal_strlit("__SUMMARY_ROWS__");
    }
    assert(is_capital("__NOTICES__"@)) by {
        reveal_strlit("__NOTICES__");
    }
}

proof fn lemma_setting_off(view: SnapshotView)
    ensures
        sets_off(view, '>'),
        sets_off(view, '<'),
        sets_off(view, '"'),
        sets_off(view, '\n'),
{
    let all = download_page::fields(view);
    assert(all[0].0 == "__PAGE_TITLE__"@);
    assert(all[1].0 == "__PROJECT_URL__"@);
    assert(all[2].0 == "__BADGE__"@);
    assert(all[3].0 == "__DISPLAY_NAME__"@);
    assert(all[4].0 == "__MODE_LABEL__"@);
    assert(all[5].0 == "__LEAD__"@);
    assert(all[6].0 == "__TTL__"@);
    assert(all[7].0 == "__STATE__"@);
    assert(all[8].0 == "__TOKEN__"@);
    assert(all[9].0 == "__EXPIRY_SECONDS__"@);
    assert(all[10].0 == "__ACTION_PANEL__"@);
    assert(all[11].0 == "__SUMMARY_ROWS__"@);
    assert(all[12].0 == "__NOTICES__"@);
    lemma_capitals();
    assert forall|j: int| 0 <= j < 13 implies is_capital((#[trigger] all[j]).0) by {}
}

/// A text of capital letters and underscores.
spec fn is_capital(slot: Seq<char>) -> bool {
    forall|i: int| 0 <= i < slot.len() ==> ('A' <= #[trigger] slot[i] <= 'Z' || slot[i] == '_')
}

/// The page shows each of its parts: the names, the time that is left, the way to the download,
/// the summary and the notices, each of them as long as it holds no placeholder itself.
pub proof fn page_shows_each_part(view: SnapshotView, k: int)
    requires
        0 <= k < 13,
        forall|j: int|
            k < j < 13 ==> !text::contains(
                download_page::fields(view)[k].1,
                (#[trigger] download_page::fields(view)[j]).0,
            ),
    ensures
        text::contains(
            download_page::page_text(TEMPLATE@, view),
            download_page::fields(view)[k].1,
        ),
{
    broadcast use {laws::front_is_contained, laws::back_is_contained, laws::text_contains_itself};

    template::frame_has_every_place();
    lemma_setting_off(view);
    let all = download_page::fields(view);
    assert(all[0].0 == "__PAGE_TITLE__"@);
    assert(all[1].0 == "__PROJECT_URL__"@);
    assert(all[2].0 == "__BADGE__"@);
    assert(all[3].0 == "__DISPLAY_NAME__"@);
    assert(all[4].0 == "__MODE_LABEL__"@);
    assert(all[5].0 == "__LEAD__"@);
    assert(all[6].0 == "__TTL__"@);
    assert(all[7].0 == "__STATE__"@);
    assert(all[8].0 == "__TOKEN__"@);
    assert(all[9].0 == "__EXPIRY_SECONDS__"@);
    assert(all[10].0 == "__ACTION_PANEL__"@);
    assert(all[11].0 == "__SUMMARY_ROWS__"@);
    assert(all[12].0 == "__NOTICES__"@);
    let (first, last) = if k == 1 || k == 8 || k == 9 {
        ('"', '"')
    } else if k == 10 || k == 12 {
        ('\n', '\n')
    } else {
        ('>', '<')
    };
    lemma_part_of_page(TEMPLATE@, view, k, first, last, 13);
    let page = download_page::page_text(TEMPLATE@, view);
    let shown = seq![first] + all[k].1 + seq![last];
    assert(text::contains(page, shown));
    laws::contained_part_splits_text(page, shown);
    let (a, b) = choose|a: Seq<char>, b: Seq<char>| page == #[trigger] (a + shown + b);
    assert(text::contains(shown, all[k].1));
    assert(text::contains(a + shown + b, all[k].1));
}

/// The page that is served for a session leads to the download of that session, with a PIN and
/// without.
pub proof fn served_page_leads_to_the_download(
    session: SharedSession,
    supplied: &str,
    now: Timestamp,
    page: String,
)
    requires
        call_ensures(SharedSession::build_page_at, (&session, supplied, now), Ok(page)),
        has_safe_token(session.seen_at(now)),
        !text::contains(download_page::action_panel(session.seen_at(now)), "__SUMMARY_ROWS__"@),
        !text::contains(download_page::action_panel(session.seen_at(now)), "__NOTICES__"@),
    ensures
        text::contains(page@, "\"/download/"@ + session.token@ + "\""@),
{
    broadcast use {laws::front_is_contained, laws::back_is_contained, laws::text_contains_itself};

    let view = session.seen_at(now);
    let all = download_page::fields(view);
    assert(all[10].0 == "__ACTION_PANEL__"@ && all[10].1 == download_page::action_panel(view));
    assert(all[11].0 == "__SUMMARY_ROWS__"@);
    assert(all[12].0 == "__NOTICES__"@);
    page_shows_each_part(view, 10);
    page_leads_to_the_download(view);
    let panel = download_page::action_panel(view);
    let link = "\"/download/"@ + session.token@ + "\""@;
    assert(text::contains(panel, link));
    laws::contained_part_splits_text(page@, panel);
    let (a, b) = choose|a: Seq<char>, b: Seq<char>| page@ == #[trigger] (a + panel + b);
    assert(text::contains(a + panel + b, link));
}

} // verus!
