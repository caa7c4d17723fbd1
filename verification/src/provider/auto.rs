//! The automatic choice of a provider.
use vstd::prelude::*;

use crate::provider::ProviderKind;
use crate::text;

verus! {

/// A provider that was tried without success.
#[derive(Clone, Debug)]
pub struct ProviderAttempt {
    pub provider: ProviderKind,
    pub state: &'static str,
    pub detail: String,
}

/// An attempt with its texts as sequences of characters.
#[verifier::ext_equal]
pub ghost struct AttemptView {
    pub provider: ProviderKind,
    pub state: Seq<char>,
    pub detail: Seq<char>,
}

impl View for ProviderAttempt {
    type V = AttemptView;

    open spec fn view(&self) -> AttemptView {
        AttemptView { provider: self.provider, state: self.state@, detail: self.detail@ }
    }
}

impl AttemptView {
    pub open spec fn brief(self) -> Seq<char> {
        self.provider.id() + " "@ + self.state
    }

    pub open spec fn full(self) -> Seq<char> {
        self.brief() + ": "@ + self.detail
    }
}

/// The views of a sequence of attempts.
pub open spec fn attempt_views(attempts: Seq<ProviderAttempt>) -> Seq<AttemptView> {
    attempts.map_values(|attempt: ProviderAttempt| attempt@)
}

impl ProviderAttempt {
    /// The attempt in short.
    pub fn brief(&self) -> (res: String)
        ensures
            res@ == self@.brief(),
    {
        let mut out = self.provider.name().to_string();
        out.append(" ");
        out.append(self.state);
        out
    }

    /// The attempt with the reason why it did not succeed.
    pub fn full(&self) -> (res: String)
        ensures
            res@ == self@.full(),
    {
        let mut out = self.brief();
        out.append(": ");
        out.append(self.detail.as_str());
        out
    }
}

/// The status of a tunnel that was opened by the named provider after the given attempts.
pub open spec fn ready_text(provider_name: Seq<char>, attempts: Seq<AttemptView>) -> Seq<char> {
    if attempts.len() == 0 {
        "Public link ready via "@ + provider_name
    } else {
        "Public link ready via "@ + provider_name + " after "@ + text::joined(
            attempts.map_values(|attempt: AttemptView| attempt.brief()),
            ", "@,
        )
    }
}

pub fn format_auto_ready_status(provider_name: &str, attempts: &[ProviderAttempt]) -> (res: String)
    ensures
        res@ == ready_text(provider_name@, attempt_views(attempts@)),
{
    let mut out = "Public link ready via ".to_string();
    out.append(provider_name);
    if attempts.len() == 0 {
        return out;
    }
    let ghost briefs = attempt_views(attempts@).map_values(|attempt: AttemptView| attempt.brief());
    let mut parts: Vec<String> = Vec::new();
    let mut i: usize = 0;
    while i < attempts.len()
        invariant
            i <= attempts@.len(),
            briefs == attempt_views(attempts@).map_values(
                |attempt: AttemptView| attempt.brief(),
            ),
            text::views(parts@) == briefs.take(i as int),
        decreases attempts@.len() - i,
    {
        let ghost before = parts@;
        parts.push(attempts[i].brief());
        assert(text::views(parts@) =~= text::views(before).push(attempts@[i as int]@.brief()));
        assert(briefs.take(i + 1) =~= briefs.take(i as int).push(briefs[i as int]));
        i = i + 1;
    }
    assert(briefs.take(i as int) =~= briefs);
    out.append(" after ");
    out.append(text::join(&parts, ", ").as_str());
    out
}

/// The lines on a sequence of attempts.
pub open spec fn attempt_lines(attempts: Seq<AttemptView>) -> Seq<char>
    decreases attempts.len(),
{
    if attempts.len() == 0 {
        Seq::empty()
    } else {
        attempt_lines(attempts.drop_last()) + "- "@ + attempts.last().full() + "\n"@
    }
}

/// The native relay was tried.
pub open spec fn tried_native(attempts: Seq<AttemptView>) -> bool {
    exists|i: int|
        0 <= i < attempts.len() && (#[trigger] attempts[i]).provider == ProviderKind::Native
}

/// The error where no provider could open a tunnel.
pub open spec fn failure_text(attempts: Seq<AttemptView>) -> Seq<char> {
    "Beam could not start global sharing automatically.\n\n"@
        + "Auto provider order: cloudflared -> pinggy"@ + (if tried_native(attempts) {
        " -> native"@
    } else {
        Seq::empty()
    }) + "\n\nAttempts:\n"@ + attempt_lines(attempts)
        + "\nHints: install cloudflared, ensure ssh is available for Pinggy, set BEAM_RELAY_URL or run beam-relay, or use --local."@
}

fn has_native(attempts: &[ProviderAttempt]) -> (res: bool)
    ensures
        res == tried_native(attempt_views(attempts@)),
{
    let ghost views = attempt_views(attempts@);
    let mut i: usize = 0;
    while i < attempts.len()
        invariant
            i <= attempts@.len(),
            views == attempt_views(attempts@),
            forall|k: int| 0 <= k < i ==> (#[trigger] views[k]).provider != ProviderKind::Native,
        decreases attempts@.len() - i,
    {
        assert(views[i as int] == attempts@[i as int]@);
        if attempts[i].provider == ProviderKind::Native {
            return true;
        }
        i = i + 1;
    }
    false
}

pub fn format_auto_startup_error(attempts: &[ProviderAttempt]) -> (res: String)
    ensures
        res@ == failure_text(attempt_views(attempts@)),
{
    let ghost views = attempt_views(attempts@);
    let mut message = "Beam could not start global sharing automatically.\n\n".to_string();
    message.append("Auto provider order: cloudflared -> pinggy");
    if has_native(attempts) {
        message.append(" -> native");
    }
    message.append("\n\nAttempts:\n");
    let ghost head = message@;
    let mut i: usize = 0;
    assert(views.take(0) =~= Seq::empty());
    assert(head + attempt_lines(views.take(0)) =~= head);
    while i < attempts.len()
        invariant
            i <= attempts@.len(),
            views == attempt_views(attempts@),
            message@ == head + attempt_lines(views.take(i as int)),
        decreases attempts@.len() - i,
    {
        assert(views.take(i + 1).drop_last() =~= views.take(i as int));
        assert(views.take(i + 1).last() == attempts@[i as int]@);
        message.append("- ");
        message.append(attempts[i].full().as_str());
        message.append("\n");
        assert(message@ =~= head + attempt_lines(views.take(i + 1)));
        i = i + 1;
    }
    assert(views.take(i as int) =~= views);
    message.append(
        "\nHints: install cloudflared, ensure ssh is available for Pinggy, set BEAM_RELAY_URL or run beam-relay, or use --local.",
    );
    assert(message@ =~= failure_text(views)) by {
        let native = if tried_native(views) {
            " -> native"@
        } else {
            Seq::<char>::empty()
        };
        assert("Beam could not start global sharing automatically.\n\n"@
            + "Auto provider order: cloudflared -> pinggy"@ + native + "\n\nAttempts:\n"@ =~= head);
    }
    message
}

/// The providers in the order in which they are tried.
pub open spec fn concrete_providers() -> Seq<ProviderKind> {
    seq![ProviderKind::Cloudflared, ProviderKind::Pinggy, ProviderKind::Native]
}

/// A provider can be tried.
pub open spec fn is_usable(
    provider: ProviderKind,
    cloudflared: bool,
    ssh: bool,
    native: bool,
) -> bool {
    match provider {
        ProviderKind::Cloudflared => cloudflared,
        ProviderKind::Pinggy => ssh,
        ProviderKind::Native => native,
        ProviderKind::Auto => false,
    }
}

/// The providers that can be tried, in the order in which they are tried, from what was found
/// on this machine.
pub fn auto_provider_order(cloudflared: bool, ssh: bool, native: bool) -> (res: Vec<ProviderKind>)
    ensures
        res@ == concrete_providers().filter(
            |provider: ProviderKind| is_usable(provider, cloudflared, ssh, native),
        ),
{
    let mut providers: Vec<ProviderKind> = Vec::new();
    if cloudflared {
        providers.push(ProviderKind::Cloudflared);
    }
    if ssh {
        providers.push(ProviderKind::Pinggy);
    }
    if native {
        providers.push(ProviderKind::Native);
    }
    proof {
        let usable = |provider: ProviderKind| is_usable(provider, cloudflared, ssh, native);
        let none = Seq::<ProviderKind>::empty();
        let one = none.push(ProviderKind::Cloudflared);
        let two = one.push(ProviderKind::Pinggy);
        let all = two.push(ProviderKind::Native);
        reveal(Seq::filter);
        assert(one.drop_last() =~= none);
        assert(two.drop_last() =~= one);
        assert(all.drop_last() =~= two);
        assert(all =~= concrete_providers());
        assert(none.filter(usable) =~= none);
        assert(one.filter(usable) =~= if cloudflared {
            one
        } else {
            none
        });
        assert(two.filter(usable) =~= if ssh {
            one.filter(usable).push(ProviderKind::Pinggy)
        } else {
            one.filter(usable)
        });
        assert(providers@ =~= all.filter(usable));
    }
    providers
}

/// Why a provider cannot be tried.
pub open spec fn missing_text(provider: ProviderKind) -> Seq<char> {
    match provider {
        ProviderKind::Cloudflared => "cloudflared is not installed or not on PATH"@,
        ProviderKind::Pinggy => "ssh is not installed or not on PATH"@,
        ProviderKind::Native
            => "no BEAM_RELAY_URL is configured and the default local relay is not reachable"@,
        ProviderKind::Auto => ""@,
    }
}

/// Whether a provider can be tried, or why not.
pub fn provider_auto_availability(provider: ProviderKind, available: bool) -> (res: Result<
    (),
    String,
>)
    requires
        provider != ProviderKind::Auto,
    ensures
        available ==> res is Ok,
        !available ==> (res matches Err(reason) && reason@ == missing_text(provider)),
{
    if available {
        return Ok(());
    }
    Err(
        match provider {
            ProviderKind::Cloudflared => "cloudflared is not installed or not on PATH",
            ProviderKind::Pinggy => "ssh is not installed or not on PATH",
            ProviderKind::Native
                => "no BEAM_RELAY_URL is configured and the default local relay is not reachable",
            ProviderKind::Auto => "",
        }.to_string(),
    )
}

/// What came of trying a provider.
#[derive(Debug)]
pub enum AutoEvent {
    Unavailable,
    Failed { error: String },
    Started,
}

/// What is to be done next.
#[derive(Debug)]
pub enum AutoStep {
    Try { provider: ProviderKind },
    Ready { provider: ProviderKind, status: String },
    GiveUp { message: String },
}

/// The attempts that were made so far, one for each provider from the first on.
#[derive(Debug)]
pub struct AutoStart {
    pub attempts: Vec<ProviderAttempt>,
}

impl AutoStart {
    /// The attempts follow the order of the providers, and each of them failed or could not be
    /// made.
    pub open spec fn well_formed(self) -> bool {
        &&& self.attempts@.len() <= concrete_providers().len()
        &&& forall|i: int|
            0 <= i < self.attempts@.len() ==> (#[trigger] self.attempts@[i]).provider
                == concrete_providers()[i]
    }

    /// What is to be done: the next provider is tried, and after the last one it is given up.
    pub open spec fn goes_on_with(self, step: AutoStep) -> bool {
        if self.attempts@.len() < concrete_providers().len() {
            step == (AutoStep::Try { provider: concrete_providers()[self.attempts@.len() as int] })
        } else {
            step matches AutoStep::GiveUp { message } && message@ == failure_text(
                attempt_views(self.attempts@),
            )
        }
    }

    pub fn new() -> (res: AutoStart)
        ensures
            res.well_formed(),
            res.attempts@.len() == 0,
    {
        AutoStart { attempts: Vec::new() }
    }

    /// What is to be done next.
    pub fn next(&self) -> (res: AutoStep)
        requires
            self.well_formed(),
        ensures
            self.goes_on_with(res),
    {
        match self.attempts.len() {
            0 => AutoStep::Try { provider: ProviderKind::Cloudflared },
            1 => AutoStep::Try { provider: ProviderKind::Pinggy },
            2 => AutoStep::Try { provider: ProviderKind::Native },
            _ => AutoStep::GiveUp {
                message: format_auto_startup_error(self.attempts.as_slice()),
            },
        }
    }

    /// `self` is `before` after an attempt without success.
    pub open spec fn noted(self, before: AutoStart, state: Seq<char>, detail: Seq<char>) -> bool {
        attempt_views(self.attempts@) == attempt_views(before.attempts@).push(
            AttemptView {
                provider: concrete_providers()[before.attempts@.len() as int],
                state,
                detail,
            },
        )
    }

    /// Takes what came of the provider that was tried, and says what is to be done next.
    pub fn report(&mut self, event: AutoEvent) -> (res: AutoStep)
        requires
            old(self).well_formed(),
            old(self).attempts@.len() < concrete_providers().len(),
        ensures
            final(self).well_formed(),
            ({
                let provider = concrete_providers()[old(self).attempts@.len() as int];
                match event {
                    AutoEvent::Started => {
                        &&& *final(self) == *old(self)
                        &&& res matches AutoStep::Ready { provider: ready, status } && ready
                            == provider && status@ == ready_text(
                            provider.id(),
                            attempt_views(old(self).attempts@),
                        )
                    },
                    AutoEvent::Unavailable => {
                        &&& final(self).noted(*old(self), "unavailable"@, missing_text(provider))
                        &&& final(self).goes_on_with(res)
                    },
                    AutoEvent::Failed { error } => {
                        &&& final(self).noted(*old(self), "failed"@, error@)
                        &&& final(self).goes_on_with(res)
                    },
                }
            }),
    {
        let provider = match self.attempts.len() {
            0 => ProviderKind::Cloudflared,
            1 => ProviderKind::Pinggy,
            _ => ProviderKind::Native,
        };
        let ghost before = self.attempts@;
        let attempt = match event {
            AutoEvent::Started => {
                let status = format_auto_ready_status(provider.name(), self.attempts.as_slice());
                return AutoStep::Ready { provider, status };
            },
            AutoEvent::Failed { error } => ProviderAttempt {
                provider,
                state: "failed",
                detail: error,
            },
            AutoEvent::Unavailable => {
                let detail = match provider_auto_availability(provider, false) {
                    Err(reason) => reason,
                    Ok(()) => String::new(),
                };
                ProviderAttempt { provider, state: "unavailable", detail }
            },
        };
        let ghost view = attempt@;
        self.attempts.push(attempt);
        assert(attempt_views(self.attempts@) =~= attempt_views(before).push(view));
        self.next()
    }
}

/// The status of a tunnel that was opened by the provider that was asked for.
pub fn explicit_ready_status(provider_name: &str) -> (res: String)
    ensures
        res@ == "Public link ready via "@ + provider_name@,
{
    let mut out = "Public link ready via ".to_string();
    out.append(provider_name);
    out
}

proof fn lemma_attempt_is_listed(attempts: Seq<AttemptView>, i: int)
    requires
        0 <= i < attempts.len(),
    ensures
        text::contains(attempt_lines(attempts), "- "@ + attempts[i].full() + "\n"@),
    decreases attempts.len(),
{
    let line = "- "@ + attempts[i].full() + "\n"@;
    let front = attempt_lines(attempts.drop_last());
    let all = attempt_lines(attempts);
    if i == attempts.len() - 1 {
        assert(all.subrange(front.len() as int, (front.len() + line.len()) as int) =~= line);
        assert(text::occurs_at(all, line, front.len() as int));
    } else {
        lemma_attempt_is_listed(attempts.drop_last(), i);
        let at = choose|at: int| text::occurs_at(front, line, at);
        assert(all.subrange(at, at + line.len()) =~= front.subrange(at, at + line.len()));
        assert(text::occurs_at(all, line, at));
    }
}

/// Where no provider could open a tunnel, the error gives the reason for each attempt.
pub proof fn failure_names_every_attempt(attempts: Seq<AttemptView>, i: int)
    requires
        0 <= i < attempts.len(),
    ensures
        text::contains(failure_text(attempts), "- "@ + attempts[i].full() + "\n"@),
{
    lemma_attempt_is_listed(attempts, i);
    let line = "- "@ + attempts[i].full() + "\n"@;
    let head = "Beam could not start global sharing automatically.\n\n"@
        + "Auto provider order: cloudflared -> pinggy"@ + (if tried_native(attempts) {
        " -> native"@
    } else {
        Seq::empty()
    }) + "\n\nAttempts:\n"@;
    let lines = attempt_lines(attempts);
    let all = failure_text(attempts);
    let at = choose|at: int| text::occurs_at(lines, line, at);
    assert(all.subrange(head.len() + at, head.len() + at + line.len()) =~= lines.subrange(
        at,
        at + line.len(),
    ));
    assert(text::occurs_at(all, line, head.len() + at));
}

/// cloudflared is tried before Pinggy, and Pinggy before the native relay; nothing is given up
/// before all of them were tried.
pub proof fn providers_are_tried_in_order(start: AutoStart, step: AutoStep)
    requires
        start.well_formed(),
        start.goes_on_with(step),
    ensures
        start.attempts@.len() == 0 ==> step == (AutoStep::Try {
            provider: ProviderKind::Cloudflared,
        }),
        step matches AutoStep::Try { provider } ==> {
            &&& provider == ProviderKind::Pinggy ==> start.attempts@.len() == 1
                && start.attempts@[0].provider == ProviderKind::Cloudflared
            &&& provider == ProviderKind::Native ==> start.attempts@.len() == 2
                && start.attempts@[1].provider == ProviderKind::Pinggy
        },
        step is GiveUp ==> start.attempts@.len() == 3 && start.attempts@[2].provider
            == ProviderKind::Native,
{
}

} // verus!
