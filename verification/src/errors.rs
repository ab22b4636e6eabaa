//! The kinds of failure, and what is done about each.

use vstd::prelude::*;

verus! {

/// What went wrong, by the part it went wrong in.
#[derive(Debug, Clone, Copy, PartialEq, Eq, Structural)]
pub enum ErrorKind {
    /// The set-up is unusable: a bad flag, an origin that cannot be reached.
    Config,
    /// The origin refused a request or took too long.
    Upstream,
    /// The control port refused to authenticate or answered what cannot be
    /// read.
    Control,
    /// The cache could not serve or store.
    Cache,
    /// A part could not be taken down.
    Shutdown,
}

/// When a failure happened.
#[derive(Debug, Clone, Copy, PartialEq, Eq, Structural)]
pub enum Phase {
    /// While the tunnel was set up.
    Startup,
    /// While circuits were built ahead.
    Prebuild,
    /// While a request was served.
    Request,
    /// While the tunnel was taken down.
    Teardown,
}

/// What is done about a failure.
#[derive(Debug, Clone, Copy, PartialEq, Eq, Structural)]
pub enum Reaction {
    /// The program ends with a message and a status other than zero.
    Abort,
    /// The caller is answered with status 502, and the request counts as
    /// failed.
    BadGateway,
    /// The work goes on without what failed, which is logged.
    Continue,
}

/// What is done about a failure of `kind` in `phase`.
///
/// A bad set-up ends the program. An origin that fails is reported to the
/// caller of the request. The control port must work for the service to be
/// published at startup; anywhere else its failures are passed over. The
/// cache and the taking down never stop anything.
pub open spec fn reaction_to(kind: ErrorKind, phase: Phase) -> Reaction {
    match kind {
        ErrorKind::Config => Reaction::Abort,
        ErrorKind::Upstream => Reaction::BadGateway,
        ErrorKind::Control => if phase == Phase::Startup {
            Reaction::Abort
        } else {
            Reaction::Continue
        },
        ErrorKind::Cache => Reaction::Continue,
        ErrorKind::Shutdown => Reaction::Continue,
    }
}

/// What is done about a failure of `kind` in `phase`.
pub fn react(kind: ErrorKind, phase: Phase) -> (r: Reaction)
    ensures
        r == reaction_to(kind, phase),
{
    match kind {
        ErrorKind::Config => Reaction::Abort,
        ErrorKind::Upstream => Reaction::BadGateway,
        ErrorKind::Control => match phase {
            Phase::Startup => Reaction::Abort,
            _ => Reaction::Continue,
        },
        ErrorKind::Cache => Reaction::Continue,
        ErrorKind::Shutdown => Reaction::Continue,
    }
}

} // verus!
