//! The report on what Beam finds on this machine.
pub mod laws;

use vstd::prelude::*;

use crate::provider::ProviderKind;
use crate::text;

verus! {

/// What was found.
#[derive(Debug)]
pub struct Findings {
    pub cloudflared: bool,
    pub ssh: bool,
    pub native_auto: bool,
    pub native_configured: bool,
    pub auto_order: Vec<ProviderKind>,
    pub clipboard: bool,
    pub terminal: bool,
    pub term: Option<String>,
}

/// How a check is reported.
pub open spec fn check_word(passed: bool) -> Seq<char> {
    if passed {
        "ok"@
    } else {
        "missing"@
    }
}

pub fn pass_fail(value: bool) -> (res: &'static str)
    ensures
        res@ == check_word(value),
{
    if value {
        "ok"
    } else {
        "missing"
    }
}

/// The terminal understands control sequences: it is one, and it is not called dumb.
pub open spec fn speaks_ansi(findings: Findings) -> bool {
    &&& findings.terminal
    &&& text::optional(findings.term) matches Some(term) && term != "dumb"@
}

/// The names of providers.
pub open spec fn names(order: Seq<ProviderKind>) -> Seq<Seq<char>> {
    order.map_values(|provider: ProviderKind| provider.id())
}

/// How the order in which providers are tried is reported.
pub open spec fn order_text(order: Seq<ProviderKind>) -> Seq<char> {
    if order.len() == 0 {
        "none"@
    } else {
        text::joined(names(order), " -> "@)
    }
}

fn show_order(order: &Vec<ProviderKind>) -> (res: String)
    ensures
        res@ == order_text(order@),
{
    if order.len() == 0 {
        return "none".to_string();
    }
    let mut parts: Vec<String> = Vec::new();
    let mut i: usize = 0;
    while i < order.len()
        invariant
            i <= order@.len(),
            text::views(parts@) == names(order@).take(i as int),
        decreases order@.len() - i,
    {
        let ghost before = parts@;
        parts.push(order[i].name().to_string());
        assert(text::views(parts@) =~= text::views(before).push(order@[i as int].id()));
        assert(names(order@).take(i + 1) =~= names(order@).take(i as int).push(
            order@[i as int].id(),
        ));
        i = i + 1;
    }
    assert(names(order@).take(i as int) =~= names(order@));
    text::join(&parts, " -> ")
}

/// One line of the report.
pub open spec fn line(label: Seq<char>, value: Seq<char>) -> Seq<char> {
    "  "@ + label + ": "@ + value + "\n"@
}

fn append_line(out: &mut String, label: &str, value: &str)
    ensures
        final(out)@ == old(out)@ + line(label@, value@),
{
    let ghost before = out@;
    out.append("  ");
    out.append(label);
    out.append(": ");
    out.append(value);
    out.append("\n");
    assert(out@ =~= before + line(label@, value@));
}

/// What is said of the providers that go over SSH.
pub open spec fn ssh_word(ssh: bool) -> Seq<char> {
    if ssh {
        "ready via ssh"@
    } else {
        "ssh missing"@
    }
}

/// The checks of the report.
pub open spec fn checks_text(findings: Findings) -> Seq<char> {
    "Beam doctor\n"@ + line("native relay"@, "embedded"@) + line("streaming   "@, "ready"@) + line(
        "range       "@,
        "files ok, zip no-resume"@,
    ) + line("local http  "@, "ok"@) + line("local https "@, "ok"@) + line(
        "cloudflared "@,
        check_word(findings.cloudflared),
    ) + line("ssh         "@, check_word(findings.ssh)) + line(
        "pinggy      "@,
        ssh_word(findings.ssh),
    ) + line("serveo      "@, ssh_word(findings.ssh)) + line(
        "native auto "@,
        if findings.native_auto {
            "eligible"@
        } else {
            "disabled"@
        },
    ) + line("global mode "@, "auto"@) + line(
        "auto order  "@,
        order_text(findings.auto_order@),
    ) + line("clipboard   "@, check_word(findings.clipboard)) + line(
        "terminal    "@,
        check_word(findings.terminal),
    ) + line("ansi/unicode"@, check_word(speaks_ansi(findings)))
}

/// The notes of the report.
pub open spec fn notes_text(findings: Findings) -> Seq<char> {
    (if findings.cloudflared {
        line("note        "@, "auto tries cloudflared first when it is available"@)
    } else {
        Seq::empty()
    }) + (if findings.ssh {
        line(
            "note        "@,
            "auto can fall back to Pinggy over SSH without an account"@,
        ) + line(
            "note        "@,
            "Serveo is available as an explicit SSH provider and may show a browser warning page"@,
        )
    } else {
        Seq::empty()
    }) + (if findings.native_configured {
        line(
            "note        "@,
            "native relay is explicitly configured through BEAM_RELAY_URL"@,
        )
    } else if !findings.native_auto {
        line(
            "note        "@,
            "native relay stays out of auto unless configured or locally reachable"@,
        )
    } else {
        Seq::empty()
    })
}

fn append_notes(out: &mut String, findings: &Findings)
    ensures
        final(out)@ == old(out)@ + notes_text(*findings),
{
    let ghost before = out@;
    if findings.cloudflared {
        append_line(out, "note        ", "auto tries cloudflared first when it is available");
    }
    if findings.ssh {
        append_line(
            out,
            "note        ",
            "auto can fall back to Pinggy over SSH without an account",
        );
        append_line(
            out,
            "note        ",
            "Serveo is available as an explicit SSH provider and may show a browser warning page",
        );
    }
    if findings.native_configured {
        append_line(
            out,
            "note        ",
            "native relay is explicitly configured through BEAM_RELAY_URL",
        );
    } else if !findings.native_auto {
        append_line(
            out,
            "note        ",
            "native relay stays out of auto unless configured or locally reachable",
        );
    }
    assert(out@ =~= before + notes_text(*findings));
}

fn is_ansi(findings: &Findings) -> (res: bool)
    ensures
        res == speaks_ansi(*findings),
{
    match &findings.term {
        Some(term) => !text::same(term.as_str(), "dumb") && findings.terminal,
        None => false,
    }
}

/// The whole report.
pub fn report(findings: &Findings) -> (res: String)
    ensures
        res@ == checks_text(*findings) + notes_text(*findings),
{
    let over_ssh = if findings.ssh {
        "ready via ssh"
    } else {
        "ssh missing"
    };
    let mut out = "Beam doctor\n".to_string();
    append_line(&mut out, "native relay", "embedded");
    append_line(&mut out, "streaming   ", "ready");
    append_line(&mut out, "range       ", "files ok, zip no-resume");
    append_line(&mut out, "local http  ", "ok");
    append_line(&mut out, "local https ", "ok");
    append_line(&mut out, "cloudflared ", pass_fail(findings.cloudflared));
    append_line(&mut out, "ssh         ", pass_fail(findings.ssh));
    append_line(&mut out, "pinggy      ", over_ssh);
    append_line(&mut out, "serveo      ", over_ssh);
    append_line(
        &mut out,
        "native auto ",
        if findings.native_auto {
            "eligible"
        } else {
            "disabled"
        },
    );
    append_line(&mut out, "global mode ", "auto");
    append_line(&mut out, "auto order  ", show_order(&findings.auto_order).as_str());
    append_line(&mut out, "clipboard   ", pass_fail(findings.clipboard));
    append_line(&mut out, "terminal    ", pass_fail(findings.terminal));
    append_line(&mut out, "ansi/unicode", pass_fail(is_ansi(findings)));
    append_notes(&mut out, findings);
    out
}

/// Which clipboard programs can be started.
#[derive(Clone, Copy, Debug, PartialEq, Eq, Structural)]
pub struct ClipboardPrograms {
    /// The system is macOS, and `pbcopy` is there.
    pub pbcopy: bool,
    pub wl_copy: bool,
    pub xclip: bool,
}

/// The program that copies to the clipboard: the first that is there.
pub open spec fn chosen_clipboard(programs: ClipboardPrograms) -> Option<Seq<char>> {
    if programs.pbcopy {
        Some("pbcopy"@)
    } else if programs.wl_copy {
        Some("wl-copy"@)
    } else if programs.xclip {
        Some("xclip"@)
    } else {
        None
    }
}

pub fn clipboard_command(programs: ClipboardPrograms) -> (res: Option<&'static str>)
    ensures
        text::optional_str(res) == chosen_clipboard(programs),
{
    if programs.pbcopy {
        return Some("pbcopy");
    }
    if programs.wl_copy {
        return Some("wl-copy");
    }
    if programs.xclip {
        return Some("xclip");
    }
    None
}

} // verus!
