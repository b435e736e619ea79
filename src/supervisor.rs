//! The supervisor of the long-running server tasks: a task that has ended,
//! for whatever reason, is restarted.
use vstd::prelude::*;

verus! {

/// How often the supervisor looks at its tasks, in milliseconds.
pub const SUPERVISOR_TICK_MS: u64 = 1000;

/// Which of the supervised tasks are running. The caller holds the task
/// handles and reports, on each tick, which of them have ended.
pub struct ThreadHandles {
    onboard: bool,
    game_sl: bool,
    gatekeeper: bool,
}

/// The restarts that a tick calls for.
#[derive(Debug, Clone, Copy, PartialEq, Eq, Structural)]
pub struct Restarts {
    pub onboard: bool,
    pub game: bool,
}

impl ThreadHandles {
    /// Whether the front-end server task is held.
    pub closed spec fn onboard_held(&self) -> bool {
        self.onboard
    }

    /// Whether the game server task is held.
    pub closed spec fn game_held(&self) -> bool {
        self.game_sl
    }

    /// Whether the badge task is held.
    pub closed spec fn gatekeeper_held(&self) -> bool {
        self.gatekeeper
    }

    /// No task running yet.
    pub fn new() -> (r: Self)
        ensures
            !r.onboard_held(),
            !r.game_held(),
            !r.gatekeeper_held(),
    {
        ThreadHandles { onboard: false, game_sl: false, gatekeeper: false }
    }

    /// Records that the front-end server task was (re)started.
    pub fn restart_onboard(&mut self)
        ensures
            final(self).onboard_held(),
            final(self).game_held() == old(self).game_held(),
            final(self).gatekeeper_held() == old(self).gatekeeper_held(),
    {
        self.onboard = true;
    }

    /// Records that the game server task was (re)started.
    pub fn restart_game(&mut self)
        ensures
            final(self).game_held(),
            final(self).onboard_held() == old(self).onboard_held(),
            final(self).gatekeeper_held() == old(self).gatekeeper_held(),
    {
        self.game_sl = true;
    }

    /// Whether the front-end task has ended, given whether its handle reports
    /// it finished; an ended task is released.
    pub fn onboard_error(&mut self, finished: bool) -> (r: bool)
        ensures
            r == (old(self).onboard_held() && finished),
            final(self).onboard_held() == (old(self).onboard_held() && !finished),
            final(self).game_held() == old(self).game_held(),
            final(self).gatekeeper_held() == old(self).gatekeeper_held(),
    {
        if self.onboard && finished {
            self.onboard = false;
            true
        } else {
            false
        }
    }

    /// Whether the game task has ended; an ended task is released.
    pub fn game_error(&mut self, finished: bool) -> (r: bool)
        ensures
            r == (old(self).game_held() && finished),
            final(self).game_held() == (old(self).game_held() && !finished),
            final(self).onboard_held() == old(self).onboard_held(),
            final(self).gatekeeper_held() == old(self).gatekeeper_held(),
    {
        if self.game_sl && finished {
            self.game_sl = false;
            true
        } else {
            false
        }
    }

    /// Whether the badge task has ended; an ended task is released.
    pub fn gatekeeper_error(&mut self, finished: bool) -> (r: bool)
        ensures
            r == (old(self).gatekeeper_held() && finished),
            final(self).gatekeeper_held() == (old(self).gatekeeper_held() && !finished),
            final(self).onboard_held() == old(self).onboard_held(),
            final(self).game_held() == old(self).game_held(),
    {
        if self.gatekeeper && finished {
            self.gatekeeper = false;
            true
        } else {
            false
        }
    }

    /// One supervision tick: each server task that has ended is restarted at
    /// once, so both are held afterwards.
    pub fn tick(&mut self, onboard_finished: bool, game_finished: bool) -> (r: Restarts)
        requires
            old(self).onboard_held(),
            old(self).game_held(),
        ensures
            r.onboard == onboard_finished,
            r.game == game_finished,
            final(self).onboard_held(),
            final(self).game_held(),
            final(self).gatekeeper_held() == old(self).gatekeeper_held(),
    {
        let onboard = self.onboard_error(onboard_finished);
        if onboard {
            self.restart_onboard();
        }
        let game = self.game_error(game_finished);
        if game {
            self.restart_game();
        }
        Restarts { onboard, game }
    }
}

} // verus!
