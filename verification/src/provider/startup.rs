//! Watching a tunnel program until it has opened its tunnel.
use vstd::prelude::*;

use crate::provider::output;
use crate::provider::public_url;
use crate::text;

verus! {

/// How long a tunnel program may take to open its tunnel.
pub const STARTUP_TIMEOUT_MILLIS: u64 = 20_000;

/// How long to wait between two looks at a tunnel program.
pub const POLL_MILLIS: u64 = 100;

/// How much of a line is shown as the status.
pub const STATUS_CHARS: usize = 120;

/// A program that opens a tunnel.
#[derive(Clone, Copy, Debug, PartialEq, Eq, Structural)]
pub enum TunnelProgram {
    Cloudflared,
    Pinggy,
    Serveo,
}

impl TunnelProgram {
    /// The service behind the program.
    pub open spec fn service(self) -> Seq<char> {
        match self {
            TunnelProgram::Cloudflared => "cloudflared"@,
            TunnelProgram::Pinggy => "Pinggy"@,
            TunnelProgram::Serveo => "Serveo"@,
        }
    }

    pub fn service_name(self) -> (res: &'static str)
        ensures
            res@ == self.service(),
    {
        match self {
            TunnelProgram::Cloudflared => "cloudflared",
            TunnelProgram::Pinggy => "Pinggy",
            TunnelProgram::Serveo => "Serveo",
        }
    }

    /// The program that runs on this machine.
    pub open spec fn process(self) -> Seq<char> {
        match self {
            TunnelProgram::Cloudflared => "cloudflared"@,
            TunnelProgram::Pinggy => "Pinggy ssh"@,
            TunnelProgram::Serveo => "Serveo ssh"@,
        }
    }

    pub fn process_name(self) -> (res: &'static str)
        ensures
            res@ == self.process(),
    {
        match self {
            TunnelProgram::Cloudflared => "cloudflared",
            TunnelProgram::Pinggy => "Pinggy ssh",
            TunnelProgram::Serveo => "Serveo ssh",
        }
    }

    /// The status before the program has said anything.
    pub fn starting_status(self) -> (res: &'static str)
        ensures
            res@ == match self {
                TunnelProgram::Cloudflared => "Starting cloudflared tunnel"@,
                TunnelProgram::Pinggy => "Starting Pinggy tunnel over SSH"@,
                TunnelProgram::Serveo => "Starting Serveo tunnel over SSH"@,
            },
    {
        match self {
            TunnelProgram::Cloudflared => "Starting cloudflared tunnel",
            TunnelProgram::Pinggy => "Starting Pinggy tunnel over SSH",
            TunnelProgram::Serveo => "Starting Serveo tunnel over SSH",
        }
    }

    /// The error where the program cannot be started.
    pub fn spawn_error(self) -> (res: &'static str)
        ensures
            res@ == match self {
                TunnelProgram::Cloudflared
                    => "failed to spawn cloudflared. Install it and ensure it is on PATH"@,
                TunnelProgram::Pinggy
                    => "failed to spawn ssh for Pinggy. Install OpenSSH and ensure it is on PATH"@,
                TunnelProgram::Serveo
                    => "failed to spawn ssh for Serveo. Install OpenSSH and ensure it is on PATH"@,
            },
    {
        match self {
            TunnelProgram::Cloudflared
                => "failed to spawn cloudflared. Install it and ensure it is on PATH",
            TunnelProgram::Pinggy
                => "failed to spawn ssh for Pinggy. Install OpenSSH and ensure it is on PATH",
            TunnelProgram::Serveo
                => "failed to spawn ssh for Serveo. Install OpenSSH and ensure it is on PATH",
        }
    }

    /// The error where the state of the program cannot be queried.
    pub fn query_error(self) -> (res: String)
        ensures
            res@ == "failed to query "@ + self.process() + " status"@,
    {
        let mut out = "failed to query ".to_string();
        out.append(self.process_name());
        out.append(" status");
        out
    }

    /// The public URL in a line of the program.
    pub open spec fn link_in(self, line: Seq<char>) -> Option<Seq<char>> {
        match self {
            TunnelProgram::Cloudflared => public_url::first_match(
                public_url::CLOUDFLARED_URL@,
                line,
            ),
            TunnelProgram::Pinggy => public_url::first_link(
                public_url::PINGGY_URL@,
                line,
                public_url::HostRule::Pinggy,
            ),
            TunnelProgram::Serveo => public_url::first_link(
                public_url::SERVEO_URL@,
                public_url::stripped(line),
                public_url::HostRule::Serveo,
            ),
        }
    }

    fn find_link(self, line: &str) -> (res: Option<String>)
        ensures
            text::optional(res) == self.link_in(line@),
            res matches Some(url) ==> text::starts_with(url@, "https://"@),
    {
        match self {
            TunnelProgram::Cloudflared => public_url::extract_public_url(
                line,
                public_url::CLOUDFLARED_URL,
            ),
            TunnelProgram::Pinggy => public_url::extract_pinggy_public_url(
                line,
                public_url::PINGGY_URL,
            ),
            TunnelProgram::Serveo => public_url::extract_serveo_public_url(
                line,
                public_url::SERVEO_URL,
            ),
        }
    }

    /// What is kept as the cause of a failure after another line.
    pub open spec fn cause(self, kept: Option<Seq<char>>, line: Seq<char>) -> Option<Seq<char>> {
        match self {
            TunnelProgram::Cloudflared => output::cloudflared_cause(kept, line),
            TunnelProgram::Pinggy => output::ssh_cause(kept, line),
            TunnelProgram::Serveo => output::ssh_cause(kept, line),
        }
    }

    /// What is shown of a line.
    pub open spec fn shown(self, line: Seq<char>) -> Seq<char> {
        match self {
            TunnelProgram::Serveo => text::clipped(
                public_url::stripped(line),
                STATUS_CHARS as nat,
            ),
            _ => text::clipped(line, STATUS_CHARS as nat),
        }
    }
}

/// What is known of a tunnel program from its lines.
#[derive(Debug)]
pub struct StartupWatch {
    /// The public URL has been found and handed on.
    pub url_sent: bool,
    /// Why the program failed, as far as its lines tell.
    pub startup_error: Option<String>,
}

/// What comes of reading from a tunnel program.
#[derive(Debug)]
pub enum ReadEvent {
    Line { text: String },
    End,
    Failed { error: String },
}

/// What is done with what was read.
#[derive(Debug)]
pub struct WatchStep {
    /// A new status to show.
    pub status: Option<String>,
    /// The public URL to hand on.
    pub url: Option<String>,
    /// Nothing more is read.
    pub done: bool,
}

/// A step with its texts as sequences of characters.
#[verifier::ext_equal]
pub ghost struct StepView {
    pub status: Option<Seq<char>>,
    pub url: Option<Seq<char>>,
    pub done: bool,
}

impl View for WatchStep {
    type V = StepView;

    open spec fn view(&self) -> StepView {
        StepView {
            status: text::optional(self.status),
            url: text::optional(self.url),
            done: self.done,
        }
    }
}

impl StartupWatch {
    pub fn new() -> (res: StartupWatch)
        ensures
            !res.url_sent,
            res.startup_error is None,
    {
        StartupWatch { url_sent: false, startup_error: None }
    }

    /// What is done with what was read. An empty line is passed over; the public URL is handed
    /// on once.
    pub open spec fn reaction(self, program: TunnelProgram, event: ReadEvent) -> StepView {
        match event {
            ReadEvent::End => StepView { status: None, url: None, done: true },
            ReadEvent::Failed { error } => StepView {
                status: Some(program.process() + " read error: "@ + error@),
                url: None,
                done: true,
            },
            ReadEvent::Line { text } => {
                let line = text::trimmed(text@);
                if line.len() == 0 {
                    StepView { status: None, url: None, done: false }
                } else {
                    StepView {
                        status: Some(program.shown(line)),
                        url: if self.url_sent {
                            None
                        } else {
                            program.link_in(line)
                        },
                        done: false,
                    }
                }
            },
        }
    }

    /// `self` is `before` after what was read.
    pub open spec fn advanced(
        self,
        before: StartupWatch,
        program: TunnelProgram,
        event: ReadEvent,
    ) -> bool {
        let step = before.reaction(program, event);
        &&& self.url_sent == (before.url_sent || step.url is Some)
        &&& text::optional(self.startup_error) == match event {
            ReadEvent::Line { text } => if text::trimmed(text@).len() == 0 {
                text::optional(before.startup_error)
            } else {
                program.cause(text::optional(before.startup_error), text::trimmed(text@))
            },
            _ => text::optional(before.startup_error),
        }
    }

    /// Takes what was read from a tunnel program.
    pub fn read(&mut self, program: TunnelProgram, event: &ReadEvent) -> (res: WatchStep)
        ensures
            res@ == old(self).reaction(program, *event),
            final(self).advanced(*old(self), program, *event),
            res.url matches Some(url) ==> text::starts_with(url@, "https://"@),
    {
        match event {
            ReadEvent::End => WatchStep { status: None, url: None, done: true },
            ReadEvent::Failed { error } => {
                let mut status = program.process_name().to_string();
                status.append(" read error: ");
                status.append(error.as_str());
                WatchStep { status: Some(status), url: None, done: true }
            },
            ReadEvent::Line { text } => {
                let line = text::trim(text.as_str());
                if line.as_str().is_empty() {
                    return WatchStep { status: None, url: None, done: false };
                }
                let status = match program {
                    TunnelProgram::Serveo => text::clip(
                        public_url::strip_ansi(line.as_str()).as_str(),
                        STATUS_CHARS,
                    ),
                    _ => text::clip(line.as_str(), STATUS_CHARS),
                };
                match program {
                    TunnelProgram::Cloudflared => output::record_cloudflared_startup_error(
                        &mut self.startup_error,
                        line.as_str(),
                    ),
                    TunnelProgram::Pinggy => output::record_pinggy_startup_error(
                        &mut self.startup_error,
                        line.as_str(),
                    ),
                    TunnelProgram::Serveo => output::record_ssh_provider_startup_error(
                        &mut self.startup_error,
                        line.as_str(),
                    ),
                }
                if self.url_sent {
                    return WatchStep { status: Some(status), url: None, done: false };
                }
                let url = program.find_link(line.as_str());
                if url.is_some() {
                    self.url_sent = true;
                }
                WatchStep { status: Some(status), url, done: false }
            },
        }
    }
}

/// What is to be done about a tunnel program that was started.
#[derive(Debug)]
pub enum StartupPoll {
    /// The tunnel is open.
    Ready { public_url: String, status: String },
    /// The tunnel did not open; the program is to be stopped where it still runs.
    Failed { message: String, stop: bool },
    /// Look again after this time.
    Wait { millis: u64 },
}

/// What is known when a tunnel program is looked at.
#[derive(Debug)]
pub struct StartupFacts {
    /// The public URL that was handed on.
    pub url: Option<String>,
    /// How the program ended, where it has.
    pub exit_status: Option<String>,
    /// Why it failed, as far as its lines tell.
    pub startup_error: Option<String>,
    /// The time since it was started.
    pub elapsed_millis: u64,
}

impl StartupPoll {
    /// What is to be done: a public URL counts before an end of the program, and that before
    /// the time that has passed. What the lines of the program tell is the reason given.
    pub open spec fn follows(self, program: TunnelProgram, facts: StartupFacts) -> bool {
        match (facts.url, facts.exit_status) {
            (Some(url), _) => self matches StartupPoll::Ready { public_url, status } && public_url@
                == url@ && status@ == program.service() + " ready at "@ + url@,
            (None, Some(exit)) => self matches StartupPoll::Failed { message, stop } && !stop
                && message@ == (match facts.startup_error {
                Some(error) => error@,
                None => program.process() + " exited before returning a public URL ("@ + exit@
                    + ")"@,
            }),
            (None, None) => if facts.elapsed_millis >= STARTUP_TIMEOUT_MILLIS {
                self matches StartupPoll::Failed { message, stop } && stop && message@ == (
                match facts.startup_error {
                    Some(error) => error@,
                    None => "timed out waiting for "@ + program.service()
                        + " to expose a public URL"@,
                })
            } else {
                self == (StartupPoll::Wait { millis: POLL_MILLIS })
            },
        }
    }
}

/// What is to be done about a tunnel program that was started.
pub fn poll_startup(program: TunnelProgram, facts: &StartupFacts) -> (res: StartupPoll)
    ensures
        res.follows(program, *facts),
{
    if let Some(url) = &facts.url {
        let mut status = program.service_name().to_string();
        status.append(" ready at ");
        status.append(url.as_str());
        return StartupPoll::Ready { public_url: url.clone(), status };
    }
    if let Some(exit) = &facts.exit_status {
        let message = match &facts.startup_error {
            Some(error) => error.clone(),
            None => {
                let mut message = program.process_name().to_string();
                message.append(" exited before returning a public URL (");
                message.append(exit.as_str());
                message.append(")");
                message
            },
        };
        return StartupPoll::Failed { message, stop: false };
    }
    if facts.elapsed_millis >= STARTUP_TIMEOUT_MILLIS {
        let message = match &facts.startup_error {
            Some(error) => error.clone(),
            None => {
                let mut message = "timed out waiting for ".to_string();
                message.append(program.service_name());
                message.append(" to expose a public URL");
                message
            },
        };
        return StartupPoll::Failed { message, stop: true };
    }
    StartupPoll::Wait { millis: POLL_MILLIS }
}

/// A tunnel program hands on one public URL at most.
pub proof fn public_url_is_sent_once(
    first: StartupWatch,
    second: StartupWatch,
    program: TunnelProgram,
    event: ReadEvent,
    later: ReadEvent,
)
    requires
        second.advanced(first, program, event),
        first.url_sent || first.reaction(program, event).url is Some,
    ensures
        second.url_sent,
        second.reaction(program, later).url is None,
{
}

/// The wait for a tunnel program ends: once the time is over, it is ready or has failed.
pub proof fn startup_ends(poll: StartupPoll, program: TunnelProgram, facts: StartupFacts)
    requires
        poll.follows(program, facts),
        facts.elapsed_millis >= STARTUP_TIMEOUT_MILLIS,
    ensures
        !(poll is Wait),
{
}

} // verus!
