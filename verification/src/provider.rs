//! The tunnel providers that make a session reachable from the internet.
pub mod auto;
pub mod command;
pub mod laws;
pub mod native;
pub mod output;
pub mod public_url;
pub mod startup;
pub mod steps;

use vstd::prelude::*;

use crate::duration::Duration;

verus! {

/// A tunnel provider, or the choice of one.
#[derive(Clone, Copy, Debug, PartialEq, Eq, Structural)]
pub enum ProviderKind {
    /// The first provider that is available and starts.
    Auto,
    Cloudflared,
    Pinggy,
    Native,
}

impl Default for ProviderKind {
    fn default() -> (res: ProviderKind)
        ensures
            res == ProviderKind::Auto,
    {
        ProviderKind::Auto
    }
}

impl ProviderKind {
    /// The name of the provider on the command line and in messages.
    pub open spec fn id(self) -> Seq<char> {
        match self {
            ProviderKind::Auto => "auto"@,
            ProviderKind::Cloudflared => "cloudflared"@,
            ProviderKind::Pinggy => "pinggy"@,
            ProviderKind::Native => "native"@,
        }
    }

    pub fn name(&self) -> (res: &'static str)
        ensures
            res@ == self.id(),
    {
        match self {
            ProviderKind::Auto => "auto",
            ProviderKind::Cloudflared => "cloudflared",
            ProviderKind::Pinggy => "pinggy",
            ProviderKind::Native => "native",
        }
    }

    /// How the transport of the provider is described.
    pub open spec fn transport(self) -> Seq<char> {
        match self {
            ProviderKind::Auto => "HTTPS tunnel"@,
            ProviderKind::Cloudflared => "HTTPS tunnel via cloudflared"@,
            ProviderKind::Pinggy => "HTTPS tunnel via Pinggy SSH"@,
            ProviderKind::Native => "HTTPS relay via native client"@,
        }
    }

    pub fn transport_label(self) -> (res: &'static str)
        ensures
            res@ == self.transport(),
    {
        match self {
            ProviderKind::Auto => "HTTPS tunnel",
            ProviderKind::Cloudflared => "HTTPS tunnel via cloudflared",
            ProviderKind::Pinggy => "HTTPS tunnel via Pinggy SSH",
            ProviderKind::Native => "HTTPS relay via native client",
        }
    }
}

/// How long a tunnel of Pinggy lasts without an account, in seconds.
pub const PINGGY_FREE_TTL_SECS: u64 = 3_600;

/// How long a tunnel of Pinggy lasts without an account.
pub fn pinggy_free_ttl_limit() -> (res: Duration)
    ensures
        res.well_formed(),
        res.secs == PINGGY_FREE_TTL_SECS,
        res.nanos == 0,
{
    Duration::from_secs(PINGGY_FREE_TTL_SECS)
}

} // verus!
