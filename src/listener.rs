//! Binding the well-known socket paths, with recovery from a socket file left
//! behind by a process that is gone.
use vstd::prelude::*;

use crate::text::join2;

verus! {

/// The socket the front end connects to, under the install root.
pub fn onboard_pipe(root: &str) -> (r: String)
    ensures
        r@ == root@ + "/onboard.sock"@,
{
    join2(root, "/onboard.sock")
}

/// The socket the running game connects to, under the install root.
pub fn game_pipe(root: &str) -> (r: String)
    ensures
        r@ == root@ + "/game.sock"@,
{
    join2(root, "/game.sock")
}

/// What the caller observed for the step it was told to take.
#[derive(Debug, Clone, Copy, PartialEq, Eq, Structural)]
pub enum BindEvent {
    /// The bind succeeded.
    Bound,
    /// The bind failed because the path is in use.
    AddressInUse,
    /// The bind failed for another reason.
    BindFailed,
    /// Whether some live process holds the path open.
    Holder(bool),
}

/// What the caller must do next.
#[derive(Debug, Clone, Copy, PartialEq, Eq, Structural)]
pub enum BindStep {
    /// The listener is bound.
    Listening,
    /// Find out whether a live process holds the path.
    CheckHolder,
    /// Delete the stale socket file and bind again.
    RemoveStaleAndRetry,
    /// Binding failed for good.
    Fatal,
}

/// The decision of the recovery after an event, given whether the stale
/// socket was removed already.
pub open spec fn bind_next(removed: bool, event: BindEvent) -> BindStep {
    match event {
        BindEvent::Bound => BindStep::Listening,
        BindEvent::AddressInUse => if removed {
            BindStep::Fatal
        } else {
            BindStep::CheckHolder
        },
        BindEvent::BindFailed => BindStep::Fatal,
        BindEvent::Holder(live) => if live || removed {
            BindStep::Fatal
        } else {
            BindStep::RemoveStaleAndRetry
        },
    }
}

/// The state of one attempt to bind a socket path.
pub struct BindRecovery {
    removed: bool,
}

impl BindRecovery {
    /// Whether the stale socket file was removed in this attempt.
    pub closed spec fn removed(&self) -> bool {
        self.removed
    }

    /// A fresh attempt: the caller binds first.
    pub fn new() -> (r: Self)
        ensures
            !r.removed(),
    {
        BindRecovery { removed: false }
    }

    /// Decides the next step from what the last one gave: an address in use
    /// leads to a check for a live holder; with none, the stale file is
    /// removed and the bind retried, once.
    pub fn next(&mut self, event: BindEvent) -> (r: BindStep)
        ensures
            r == bind_next(old(self).removed(), event),
            final(self).removed() == (old(self).removed() || r == BindStep::RemoveStaleAndRetry),
    {
        match event {
            BindEvent::Bound => BindStep::Listening,
            BindEvent::AddressInUse => {
                if self.removed {
                    BindStep::Fatal
                } else {
                    BindStep::CheckHolder
                }
            },
            BindEvent::BindFailed => BindStep::Fatal,
            BindEvent::Holder(live) => {
                if live || self.removed {
                    BindStep::Fatal
                } else {
                    self.removed = true;
                    BindStep::RemoveStaleAndRetry
                }
            },
        }
    }
}

/// Stale-socket recovery: a path in use with no live holder is removed and
/// bound again after exactly one removal, and a second refusal then is fatal;
/// a path that a live process holds is fatal without any removal.
pub proof fn lemma_stale_socket_recovery(retry: BindEvent)
    ensures
        bind_next(false, BindEvent::AddressInUse) == BindStep::CheckHolder,
        bind_next(false, BindEvent::Holder(false)) == BindStep::RemoveStaleAndRetry,
        bind_next(true, BindEvent::Bound) == BindStep::Listening,
        retry != BindEvent::Bound ==> bind_next(true, retry) == BindStep::Fatal,
        bind_next(false, BindEvent::Holder(true)) == BindStep::Fatal,
{
}

} // verus!
