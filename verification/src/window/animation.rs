//! Playback latch for one image animation. One frame loop waits here without polling.
use vstd::prelude::*;

verus! {

/// Whether the frames of an animation advance. Pausing belongs to the user,
/// suspension to the window; either holds the loop.
#[derive(Debug, Clone, Copy, PartialEq, Eq, Structural)]
pub struct Playback {
    paused: bool,
    suspended: bool,
    stopped: bool,
    waiting: bool,
}

/// The state of the latch.
pub struct Latch {
    pub paused: bool,
    pub suspended: bool,
    pub stopped: bool,
    /// Whether the frame loop waits to be woken.
    pub waiting: bool,
}

impl Latch {
    /// What the frame loop may do: end, go on, or wait.
    pub open spec fn answer(self) -> Option<bool> {
        if self.stopped {
            Some(false)
        } else if self.paused || self.suspended {
            None
        } else {
            Some(true)
        }
    }

    /// The latch once a waiting loop has been woken.
    pub open spec fn woken(self) -> Latch {
        Latch { waiting: false, ..self }
    }

    pub open spec fn toggled(self) -> Latch {
        Latch { paused: !self.paused, ..self }.woken()
    }

    pub open spec fn with_suspension(self, suspended: bool) -> Latch {
        Latch { suspended, ..self }.woken()
    }

    pub open spec fn halted(self) -> Latch {
        Latch { stopped: true, ..self }.woken()
    }
}

impl View for Playback {
    type V = Latch;

    closed spec fn view(&self) -> Latch {
        Latch {
            paused: self.paused,
            suspended: self.suspended,
            stopped: self.stopped,
            waiting: self.waiting,
        }
    }
}

impl Default for Playback {
    fn default() -> (result: Self)
        ensures
            result@ == (Latch { paused: false, suspended: false, stopped: false, waiting: false }),
    {
        Playback { paused: false, suspended: false, stopped: false, waiting: false }
    }
}

impl Playback {
    pub fn paused(&self) -> (result: bool)
        ensures
            result == self@.paused,
    {
        self.paused
    }

    /// Pauses or goes on; returns whether a waiting loop has to be woken.
    pub fn toggle(&mut self) -> (result: bool)
        ensures
            final(self)@ == old(self)@.toggled(),
            result == old(self)@.waiting,
    {
        self.paused = !self.paused;
        self.wake()
    }

    /// Follows the window; returns whether a waiting loop has to be woken.
    pub fn suspend(&mut self, suspended: bool) -> (result: bool)
        ensures
            final(self)@ == old(self)@.with_suspension(suspended),
            result == old(self)@.waiting,
    {
        self.suspended = suspended;
        self.wake()
    }

    /// Ends the loop; returns whether it waits and has to be woken.
    pub fn stop(&mut self) -> (result: bool)
        ensures
            final(self)@ == old(self)@.halted(),
            result == old(self)@.waiting,
    {
        self.stopped = true;
        self.wake()
    }

    fn wake(&mut self) -> (result: bool)
        ensures
            final(self)@ == old(self)@.woken(),
            result == old(self)@.waiting,
    {
        let waiting = self.waiting;
        self.waiting = false;
        waiting
    }

    /// Asked by the frame loop: false ends it, true permits decoding or presenting
    /// its next frame, and nothing makes it wait.
    pub fn ready(&mut self) -> (result: Option<bool>)
        ensures
            result == old(self)@.answer(),
            final(self)@ == (Latch {
                waiting: old(self)@.waiting || old(self)@.answer() is None,
                ..old(self)@
            }),
    {
        if self.stopped {
            Some(false)
        } else if self.paused || self.suspended {
            self.waiting = true;
            None
        } else {
            Some(true)
        }
    }
}

/// The user's pause outlives any suspension of the window.
pub proof fn pause_survives_suspension(latch: Latch)
    requires
        latch.paused,
    ensures
        latch.with_suspension(true).with_suspension(false).paused,
        latch.with_suspension(true).with_suspension(false).answer() == latch.with_suspension(
            false,
        ).answer(),
{
}

/// Suspension by itself leaves nothing behind: once it ends, the loop goes on.
pub proof fn suspension_alone_resumes(latch: Latch)
    requires
        !latch.paused,
        !latch.stopped,
    ensures
        latch.with_suspension(true).answer() is None,
        latch.with_suspension(true).with_suspension(false).answer() == Some(true),
{
}

/// Nothing revives an animation that was stopped.
pub proof fn stopping_is_final(latch: Latch, suspended: bool)
    ensures
        latch.halted().answer() == Some(false),
        latch.halted().toggled().answer() == Some(false),
        latch.halted().with_suspension(suspended).answer() == Some(false),
{
}

/// Frames advance exactly while nothing holds them: neither the user's pause nor the
/// window's suspension; once stopped they end whatever holds them.
pub proof fn frames_advance_while_nothing_holds_them(latch: Latch)
    ensures
        latch.stopped ==> latch.answer() == Some(false),
        !latch.stopped && !latch.paused && !latch.suspended ==> latch.answer() == Some(true),
        !latch.stopped && latch.paused ==> latch.answer() is None,
        !latch.stopped && latch.suspended ==> latch.answer() is None,
{
}

/// Each change touches what it is about and wakes the loop: pausing turns the pause
/// round, suspension follows the window, stopping stops.
pub proof fn changes_wake_the_loop(latch: Latch, suspended: bool)
    ensures
        latch.toggled() == (Latch { paused: !latch.paused, waiting: false, ..latch }),
        latch.toggled().toggled().paused == latch.paused,
        latch.with_suspension(suspended) == (Latch { suspended, waiting: false, ..latch }),
        latch.halted() == (Latch { stopped: true, waiting: false, ..latch }),
        latch.woken() == (Latch { waiting: false, ..latch }),
{
}

}
