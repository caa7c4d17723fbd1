//! What the sender is always told.
use vstd::prelude::*;

use crate::decimal;
use crate::download_page;
use crate::duration;
use crate::provider;
use crate::session::{SessionSnapshot, SnapshotView};
use crate::text;
use crate::text::laws;
use crate::ui;
use crate::ui::StaticOutput;

verus! {

/// A line with a label is the label, a colon and the value, and ends with a line break.
pub proof fn lines_have_label_and_value(label: Seq<char>, value: Seq<char>)
    ensures
        ui::labelled(label, value) == label + " : "@ + value + "\n"@,
{
}

/// The sender is told what is sent, under which name it arrives, how large it is, how it
/// travels and what protects it.
pub proof fn head_describes_the_session(view: SnapshotView, clear_screen: bool)
    ensures
        ({
            let head = ui::head_text(view, clear_screen);
            &&& text::contains(
                head,
                "Payload   : "@ + (view.display_name + " ("@ + view.content_kind + ")"@) + "\n"@,
            )
            &&& text::contains(head, "Download  : "@ + view.download_name + "\n"@)
            &&& text::contains(
                head,
                "Size      : "@ + download_page::human_size(view.input_size) + "\n"@,
            )
            &&& text::contains(head, "Transport : "@ + view.transport_label + "\n"@)
            &&& text::contains(
                head,
                if view.requires_pin {
                    "PIN required"@ + "\n"@
                } else {
                    "token URL"@ + "\n"@
                },
            )
            &&& view.once ==> text::contains(head, "--once "@)
            &&& text::contains(
                head,
                if view.mode is Local {
                    "Local network"@
                } else {
                    "Global default"@
                },
            )
        }),
{
    broadcast use {laws::front_is_contained, laws::back_is_contained, laws::text_contains_itself};

    lemma_label("Payload  "@, "Payload   : "@, view.display_name + " ("@ + view.content_kind
        + ")"@);
    lemma_label("Download "@, "Download  : "@, view.download_name);
    lemma_label("Size     "@, "Size      : "@, download_page::human_size(view.input_size));
    lemma_label("Transport"@, "Transport : "@, view.transport_label);
    lemma_labels();
    let once = if view.once {
        "--once "@
    } else {
        Seq::empty()
    };
    let kind = if view.requires_pin {
        "PIN required"@
    } else {
        "token URL"@
    };
    let line = ui::labelled("Security "@, once + kind);
    assert(line =~= "Security "@ + " : "@ + once + (kind + "\n"@));
    assert(text::contains(line, kind + "\n"@));
    assert(text::contains("Security "@ + " : "@ + once, once));
    assert(text::contains(line, once));
}

proof fn lemma_labels()
    ensures
        "Payload   : "@ == "Payload  "@ + " : "@,
        "Download  : "@ == "Download "@ + " : "@,
        "Size      : "@ == "Size     "@ + " : "@,
        "Transport : "@ == "Transport"@ + " : "@,
        "PIN       : "@ == "PIN      "@ + " : "@,
        "Warnings  : "@ == "Warnings "@ + " : "@,
{
    reveal_strlit(" : ");
    reveal_strlit("Payload   : ");
    reveal_strlit("Payload  ");
    reveal_strlit("Download  : ");
    reveal_strlit("Download ");
    reveal_strlit("Size      : ");
    reveal_strlit("Size     ");
    reveal_strlit("Transport : ");
    reveal_strlit("Transport");
    reveal_strlit("PIN       : ");
    reveal_strlit("PIN      ");
    reveal_strlit("Warnings  : ");
    reveal_strlit("Warnings ");
    assert("Payload   : "@ =~= "Payload  "@ + " : "@);
    assert("Download  : "@ =~= "Download "@ + " : "@);
    assert("Size      : "@ =~= "Size     "@ + " : "@);
    assert("Transport : "@ =~= "Transport"@ + " : "@);
    assert("PIN       : "@ =~= "PIN      "@ + " : "@);
    assert("Warnings  : "@ =~= "Warnings "@ + " : "@);
}

proof fn lemma_label(label: Seq<char>, shown: Seq<char>, value: Seq<char>)
    ensures
        shown == label + " : "@ ==> ui::labelled(label, value) == shown + value + "\n"@,
{
}

/// The sender is told the PIN where there is one to be told, and the links.
pub proof fn head_tells_pin_and_links(view: SnapshotView, clear_screen: bool)
    ensures
        ({
            let head = ui::head_text(view, clear_screen);
            &&& view.revealed_pin matches Some(pin) ==> text::contains(
                head,
                "PIN       : "@ + pin + "\n"@,
            )
            &&& view.primary_link.len() > 0 ==> text::contains(
                head,
                view.primary_link_label + " : "@ + view.primary_link + "\n"@,
            )
            &&& view.mode is Local && view.secondary_link_label is Some
                && view.secondary_link is Some ==> text::contains(
                head,
                view.secondary_link_label->Some_0 + " : "@ + view.secondary_link->Some_0 + "\n"@,
            )
            &&& view.mode is Local ==> text::contains(
                head,
                "Note      : The encrypted LAN link uses a temporary self-signed certificate.\n"@,
            )
            &&& view.mode is Local ==> text::contains(
                head,
                "Warning   : Local mode uses HTTP for convenience. Use --global or --pin for sensitive files.\n"@,
            )
        }),
{
    broadcast use {laws::front_is_contained, laws::back_is_contained, laws::text_contains_itself};

    lemma_labels();
    let links = ui::link_lines(view);
    let first = ui::labelled(view.primary_link_label, view.primary_link);
    if view.primary_link.len() > 0 {
        assert(text::contains(links, first));
    }
    if view.mode is Local {
        if view.secondary_link_label is Some && view.secondary_link is Some {
            let second = ui::labelled(
                view.secondary_link_label->Some_0,
                view.secondary_link->Some_0,
            );
            assert(text::contains(links, second));
        }
        assert(text::contains(
            links,
            "Warning   : Local mode uses HTTP for convenience. Use --global or --pin for sensitive files.\n"@,
        ));
    }
}

/// The sender is told every warning.
pub proof fn head_tells_every_warning(view: SnapshotView, clear_screen: bool, i: int)
    requires
        0 <= i < view.warnings.len(),
    ensures
        text::contains(ui::head_text(view, clear_screen), view.warnings[i]),
{
    broadcast use {laws::front_is_contained, laws::back_is_contained, laws::text_contains_itself};

    provider::laws::lemma_part_is_joined(view.warnings, " · "@, i);
    let line = ui::labelled("Warnings "@, text::joined(view.warnings, " · "@));
    assert(text::contains(line, view.warnings[i]));
}

/// Behind the lines stands the QR code of the link, where it can be drawn; where it cannot, the
/// reason is given.
pub proof fn qr_code_is_shown(
    snapshot: SessionSnapshot,
    clear_screen: bool,
    res: StaticOutput,
)
    requires
        call_ensures(ui::render_static, (&snapshot, clear_screen), res),
    ensures
        text::contains(res.text@, ui::head_text(snapshot@, clear_screen)),
        snapshot.primary_link@.len() == 0 ==> res.failure is None,
        snapshot.primary_link@.len() > 0 ==> (match ui::qr_drawing(snapshot.primary_link@) {
            Ok(drawing) => text::contains(res.text@, drawing) && res.failure is None,
            Err(error) => text::optional(res.failure) == Some(error),
        }),
{
    broadcast use {laws::front_is_contained, laws::back_is_contained, laws::text_contains_itself};

    let head = ui::head_text(snapshot@, clear_screen) + "\n"@;
    assert(text::contains(head, ui::head_text(snapshot@, clear_screen)));
}

/// The live block tells the status, the time that is left, how often and how much was
/// downloaded, and how far the transfer is.
pub proof fn live_block_tells_the_state(snapshot: SessionSnapshot, block: String)
    requires
        call_ensures(ui::live_block, (&snapshot,), block),
    ensures
        text::contains(block@, "Status    : "@ + snapshot.provider_status@ + "\n"@),
        text::contains(
            block@,
            "TTL       : "@ + duration::duration_text(snapshot.remaining) + "\n"@,
        ),
        text::contains(
            block@,
            "Downloads : "@ + decimal::decimal(snapshot.completed_downloads as nat) + "\n"@,
        ),
        text::contains(
            block@,
            "Served    : "@ + download_page::human_size(snapshot.bytes_served) + "\n"@,
        ),
        text::contains(
            block@,
            if snapshot.consumed {
                "State     : consumed\n"@
            } else if snapshot.active_download {
                "State     : downloading\n"@
            } else {
                "State     : waiting\n"@
            },
        ),
{
    broadcast use {laws::front_is_contained, laws::back_is_contained, laws::text_contains_itself};

    let view = snapshot@;
    lemma_live_labels();
    let nl = "\n"@;
    let ttl = duration::duration_text(view.remaining);
    let count = decimal::decimal(view.completed_downloads as nat);
    let served = download_page::human_size(view.bytes_served);
    let word = ui::progress_word(view);
    let a = nl + ("Status    : "@ + view.provider_status + nl);
    let b = a + ("TTL       : "@ + ttl + nl);
    let c = b + ("Downloads : "@ + count + nl);
    let d = c + ("Served    : "@ + served + nl);
    let e = d + ("State     : "@ + word + nl);
    assert(block@ == ui::live_text(view));
    assert(ui::live_text(view) =~= e);
    assert("State     : "@ + word + nl == if view.consumed {
        "State     : consumed\n"@
    } else if view.active_download {
        "State     : downloading\n"@
    } else {
        "State     : waiting\n"@
    });
}

proof fn lemma_live_labels()
    ensures
        "\nStatus    : "@ == "\n"@ + "Status    : "@,
        "\nTTL       : "@ == "\n"@ + "TTL       : "@,
        "\nDownloads : "@ == "\n"@ + "Downloads : "@,
        "\nServed    : "@ == "\n"@ + "Served    : "@,
        "\nState     : "@ == "\n"@ + "State     : "@,
        "State     : consumed\n"@ == "State     : "@ + "consumed"@ + "\n"@,
        "State     : downloading\n"@ == "State     : "@ + "downloading"@ + "\n"@,
        "State     : waiting\n"@ == "State     : "@ + "waiting"@ + "\n"@,
{
    reveal_strlit("\n");
    reveal_strlit("\nStatus    : ");
    reveal_strlit("Status    : ");
    reveal_strlit("\nTTL       : ");
    reveal_strlit("TTL       : ");
    reveal_strlit("\nDownloads : ");
    reveal_strlit("Downloads : ");
    reveal_strlit("\nServed    : ");
    reveal_strlit("Served    : ");
    reveal_strlit("\nState     : ");
    reveal_strlit("State     : ");
    reveal_strlit("consumed");
    reveal_strlit("downloading");
    reveal_strlit("waiting");
    reveal_strlit("State     : consumed\n");
    reveal_strlit("State     : downloading\n");
    reveal_strlit("State     : waiting\n");
    assert("\nStatus    : "@ =~= "\n"@ + "Status    : "@);
    assert("\nTTL       : "@ =~= "\n"@ + "TTL       : "@);
    assert("\nDownloads : "@ =~= "\n"@ + "Downloads : "@);
    assert("\nServed    : "@ =~= "\n"@ + "Served    : "@);
    assert("\nState     : "@ =~= "\n"@ + "State     : "@);
    assert("State     : consumed\n"@ =~= "State     : "@ + "consumed"@ + "\n"@);
    assert("State     : downloading\n"@ =~= "State     : "@ + "downloading"@ + "\n"@);
    assert("State     : waiting\n"@ =~= "State     : "@ + "waiting"@ + "\n"@);
}

/// A live block that is drawn in place of another clears it first; one that is not clears
/// nothing.
pub proof fn live_block_replaces_the_last_one(
    snapshot: SessionSnapshot,
    fresh: String,
    again: String,
)
    requires
        call_ensures(ui::live_output, (&snapshot, false), fresh),
        call_ensures(ui::live_output, (&snapshot, true), again),
    ensures
        again@ == "\x1b[6F\x1b[J"@ + fresh@,
        fresh@ == ui::live_text(snapshot@),
{
}

/// At the end the sender is told why it ended, and how often and how much was downloaded.
pub proof fn end_is_explained(snapshot: SessionSnapshot, clear_screen: bool, res: String)
    requires
        call_ensures(ui::final_output, (&snapshot, clear_screen), res),
    ensures
        text::contains(
            res@,
            "Reason    : "@ + (if snapshot.consumed {
                "Downloaded successfully in burn-after-reading mode"@
            } else if snapshot.remaining.total() == 0 {
                "TTL expired"@
            } else {
                "Stopped"@
            }) + "\nServed    : "@ + download_page::human_size(snapshot.bytes_served)
                + "\nDownloads : "@ + decimal::decimal(snapshot.completed_downloads as nat)
                + "\n"@,
        ),
{
    broadcast use {laws::front_is_contained, laws::back_is_contained, laws::text_contains_itself};

    reveal_strlit("Beam ⚡️\nSession destroyed\nReason    : ");
    reveal_strlit("Beam ⚡️\nSession destroyed\n");
    reveal_strlit("Reason    : ");
    let view = snapshot@;
    let clear = if clear_screen {
        ui::CLEAR_SCREEN@
    } else {
        ui::CLEAR_LIVE_BLOCK@
    };
    let title = "Beam ⚡️\nSession destroyed\n"@;
    assert("Beam ⚡️\nSession destroyed\nReason    : "@ =~= title + "Reason    : "@);
    let told = "Reason    : "@ + ui::end_reason(view) + "\nServed    : "@
        + download_page::human_size(view.bytes_served) + "\nDownloads : "@ + decimal::decimal(
        view.completed_downloads as nat,
    ) + "\n"@;
    assert(res@ =~= (clear + title) + told);
}

/// The line on the security of a session says how it is guarded, and whether its content is
/// burnt.
pub proof fn head_tells_how_it_is_guarded(
    snapshot: SessionSnapshot,
    clear_screen: bool,
    head: String,
)
    requires
        call_ensures(ui::static_head, (&snapshot, clear_screen), head),
    ensures
        text::contains(
            head@,
            "Security  : "@ + ((if snapshot.once {
                "--once "@
            } else {
                Seq::empty()
            }) + (if snapshot.requires_pin {
                "PIN required"@
            } else {
                "token URL"@
            })) + "\n"@,
        ),
{
    broadcast use {laws::front_is_contained, laws::back_is_contained, laws::text_contains_itself};

    let value = (if snapshot.once {
        "--once "@
    } else {
        Seq::empty()
    }) + (if snapshot.requires_pin {
        "PIN required"@
    } else {
        "token URL"@
    });
    let line = ui::labelled("Security "@, value);
    assert(text::contains(head@, line));
    reveal_strlit("Security ");
    reveal_strlit(" : ");
    reveal_strlit("Security  : ");
    assert("Security "@ + " : "@ =~= "Security  : "@);
}

/// Where there is no PIN to show, no link and no warning, the head ends with how the session is
/// guarded.
pub proof fn head_tells_nothing_that_is_not_there(
    snapshot: SessionSnapshot,
    clear_screen: bool,
    head: String,
)
    requires
        call_ensures(ui::static_head, (&snapshot, clear_screen), head),
        snapshot.revealed_pin is None,
        snapshot.mode is Global,
        snapshot.primary_link@.len() == 0,
        snapshot.warnings@.len() == 0,
    ensures
        text::ends_with(
            head@,
            (if snapshot.requires_pin {
                "PIN required"@
            } else {
                "token URL"@
            }) + "\n"@,
        ),
{
    let view = snapshot@;
    let guard = (if snapshot.requires_pin {
        "PIN required"@
    } else {
        "token URL"@
    }) + "\n"@;
    assert(view.warnings.len() == 0);
    assert(ui::link_lines(view) == Seq::<char>::empty());
    let all = head@;
    assert(all == ui::head_text(view, clear_screen));
    let front = all.take(all.len() - guard.len());
    assert(all =~= front + guard);
    laws::middle_is_contained(front, guard, Seq::empty());
}

/// Before the summary of a session and before its head the screen is cleared where that is asked
/// for; the summary else takes the place of the block that stands there.
pub proof fn screen_is_cleared_first(
    snapshot: SessionSnapshot,
    clear_screen: bool,
    summary: String,
    head: String,
)
    requires
        call_ensures(ui::final_output, (&snapshot, clear_screen), summary),
        call_ensures(ui::static_head, (&snapshot, clear_screen), head),
    ensures
        text::starts_with(
            summary@,
            if clear_screen {
                "\x1b[2J\x1b[H"@
            } else {
                "\x1b[6F\x1b[J"@
            },
        ),
        clear_screen ==> text::starts_with(head@, "\x1b[2J\x1b[H"@),
        !clear_screen ==> text::starts_with(head@, "Beam ⚡️\n"@),
{
    broadcast use {laws::front_part_starts_text, laws::text_starts_with_itself};

    assert(Seq::<char>::empty() + "Beam ⚡️\n"@ =~= "Beam ⚡️\n"@);
    assert(text::starts_with(ui::final_text(snapshot@, clear_screen), if clear_screen {
        ui::CLEAR_SCREEN@
    } else {
        ui::CLEAR_LIVE_BLOCK@
    }));
    assert(text::starts_with(ui::head_text(snapshot@, clear_screen), if clear_screen {
        ui::CLEAR_SCREEN@
    } else {
        "Beam ⚡️\n"@
    }));
}

} // verus!
