//! What the report always tells.
use vstd::prelude::*;

use crate::doctor;
use crate::doctor::{ClipboardPrograms, Findings};
use crate::provider;
use crate::text;
use crate::text::laws;

verus! {

/// How a check is shown.
pub open spec fn found_or_missing(found: bool) -> Seq<char> {
    if found {
        "ok"@
    } else {
        "missing"@
    }
}

/// The report tells of each program and of the terminal whether it was found, and whether the
/// native relay is tried on its own.
pub proof fn report_tells_what_was_found(findings: Findings, res: String)
    requires
        call_ensures(doctor::report, (&findings,), res),
    ensures
        text::contains(
            res@,
            "  "@ + "cloudflared "@ + ": "@ + found_or_missing(findings.cloudflared) + "\n"@,
        ),
        text::contains(
            res@,
            "  "@ + "ssh         "@ + ": "@ + found_or_missing(findings.ssh) + "\n"@,
        ),
        text::contains(
            res@,
            "  "@ + "pinggy      "@ + ": "@ + (if findings.ssh {
                "ready via ssh"@
            } else {
                "ssh missing"@
            }) + "\n"@,
        ),
        text::contains(
            res@,
            "  "@ + "native auto "@ + ": "@ + (if findings.native_auto {
                "eligible"@
            } else {
                "disabled"@
            }) + "\n"@,
        ),
        text::contains(
            res@,
            "  "@ + "clipboard   "@ + ": "@ + found_or_missing(findings.clipboard) + "\n"@,
        ),
        text::contains(
            res@,
            "  "@ + "terminal    "@ + ": "@ + found_or_missing(findings.terminal) + "\n"@,
        ),
        text::contains(
            res@,
            "  "@ + "ansi/unicode"@ + ": "@ + found_or_missing(
                findings.terminal && (findings.term matches Some(term) && term@ != "dumb"@),
            ) + "\n"@,
        ),
{
    broadcast use {laws::front_is_contained, laws::back_is_contained, laws::text_contains_itself};

}

/// The report names the providers that the automatic choice tries, in their order, or says that
/// there are none.
pub proof fn report_tells_the_order(findings: Findings, res: String, i: int)
    requires
        call_ensures(doctor::report, (&findings,), res),
    ensures
        findings.auto_order@.len() == 0 ==> text::contains(
            res@,
            "  "@ + "auto order  "@ + ": "@ + "none"@ + "\n"@,
        ),
        0 <= i < findings.auto_order@.len() ==> text::contains(
            res@,
            findings.auto_order@[i].id(),
        ),
        findings.auto_order@.len() == 2 ==> text::contains(
            res@,
            findings.auto_order@[0].id() + " -> "@ + findings.auto_order@[1].id(),
        ),
{
    broadcast use {laws::front_is_contained, laws::back_is_contained, laws::text_contains_itself};

    let names = doctor::names(findings.auto_order@);
    let line = doctor::line("auto order  "@, doctor::order_text(findings.auto_order@));
    assert(text::contains(res@, line));
    if 0 <= i < findings.auto_order@.len() {
        provider::laws::lemma_part_is_joined(names, " -> "@, i);
        assert(names[i] == findings.auto_order@[i].id());
        assert(text::contains(line, names[i]));
        lemma_inside(res@, line, names[i]);
    }
    if findings.auto_order@.len() == 2 {
        let both = names[0] + " -> "@ + names[1];
        assert(names.drop_last() =~= seq![names[0]]);
        assert(text::joined(seq![names[0]], " -> "@) == names[0]);
        assert(text::joined(names, " -> "@) == both);
        assert(text::contains(line, both));
        lemma_inside(res@, line, both);
    }
}

proof fn lemma_inside(whole: Seq<char>, part: Seq<char>, inner: Seq<char>)
    requires
        text::contains(whole, part),
        text::contains(part, inner),
    ensures
        text::contains(whole, inner),
{
    broadcast use {laws::front_is_contained, laws::back_is_contained, laws::text_contains_itself};

    laws::contained_part_splits_text(whole, part);
    let (a, b) = choose|a: Seq<char>, b: Seq<char>| whole == #[trigger] (a + part + b);
    assert(text::contains(a + part + b, inner));
}

/// The report has a note on each provider that can be used, and on the native relay where it is
/// configured or stays out.
pub proof fn report_has_its_notes(findings: Findings, res: String)
    requires
        call_ensures(doctor::report, (&findings,), res),
    ensures
        findings.cloudflared ==> text::contains(
            res@,
            "auto tries cloudflared first when it is available"@,
        ),
        findings.ssh ==> text::contains(
            res@,
            "auto can fall back to Pinggy over SSH without an account"@,
        ),
        findings.native_configured ==> text::contains(
            res@,
            "native relay is explicitly configured through BEAM_RELAY_URL"@,
        ),
        !findings.native_configured && !findings.native_auto ==> text::contains(
            res@,
            "native relay stays out of auto unless configured or locally reachable"@,
        ),
{
    broadcast use {laws::front_is_contained, laws::back_is_contained, laws::text_contains_itself};

}

/// The first clipboard program that is there is used: that of macOS, then that of Wayland, then
/// that of X.
pub proof fn first_clipboard_program_is_used(
    programs: ClipboardPrograms,
    res: Option<&'static str>,
)
    requires
        call_ensures(doctor::clipboard_command, (programs,), res),
    ensures
        res is None <==> !programs.pbcopy && !programs.wl_copy && !programs.xclip,
        programs.pbcopy ==> text::optional_str(res) == Some("pbcopy"@),
        !programs.pbcopy && programs.wl_copy ==> text::optional_str(res) == Some("wl-copy"@),
        !programs.pbcopy && !programs.wl_copy && programs.xclip ==> text::optional_str(res)
            == Some("xclip"@),
{
}

/// Behind the last check stand the notes and nothing else, each of them only where it applies.
pub proof fn report_ends_with_its_notes(findings: Findings, res: String)
    requires
        call_ensures(doctor::report, (&findings,), res),
    ensures
        ({
            let note = "  "@ + "note        "@ + ": "@;
            let last = "  "@ + "ansi/unicode"@ + ": "@ + found_or_missing(
                findings.terminal && (findings.term matches Some(term) && term@ != "dumb"@),
            ) + "\n"@;
            let notes = (if findings.cloudflared {
                note + "auto tries cloudflared first when it is available"@ + "\n"@
            } else {
                Seq::empty()
            }) + (if findings.ssh {
                note + "auto can fall back to Pinggy over SSH without an account"@ + "\n"@ + (note
                    + "Serveo is available as an explicit SSH provider and may show a browser warning page"@
                    + "\n"@)
            } else {
                Seq::empty()
            }) + (if findings.native_configured {
                note + "native relay is explicitly configured through BEAM_RELAY_URL"@ + "\n"@
            } else if !findings.native_auto {
                note + "native relay stays out of auto unless configured or locally reachable"@
                    + "\n"@
            } else {
                Seq::empty()
            });
            text::ends_with(res@, last + notes)
        }),
        text::starts_with(res@, "Beam doctor\n"@),
{
    broadcast use {
        laws::back_part_ends_text,
        laws::front_part_starts_text,
        laws::text_starts_with_itself,
    };

    let last = doctor::line(
        "ansi/unicode"@,
        doctor::check_word(doctor::speaks_ansi(findings)),
    );
    let notes = doctor::notes_text(findings);
    let checks = doctor::checks_text(findings);
    assert(text::ends_with(checks, last));
    assert(res@ == checks + notes);
    lemma_end_grows(checks, last, notes);
    assert(text::starts_with(checks, "Beam doctor\n"@));
}

proof fn lemma_end_grows(whole: Seq<char>, end: Seq<char>, more: Seq<char>)
    requires
        text::ends_with(whole, end),
    ensures
        text::ends_with(whole + more, end + more),
{
    let front = whole.take(whole.len() - end.len());
    assert(whole =~= front + end);
    assert(whole + more =~= front + (end + more));
    laws::middle_is_contained(front, end + more, Seq::empty());
}

} // verus!
