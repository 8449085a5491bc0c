use vstd::prelude::*;

verus! {

/// Whole-second ticks in one session: 25 minutes.
pub const SESSION_TICKS: u64 = 1500;

/// What the countdown's driver does after a tick.
#[derive(Clone, Copy, Debug, PartialEq, Eq, Structural)]
pub enum TickAction {
    /// Advance the progress display by one unit and wait for the next tick.
    Advance,
    /// Advance the display, finish it, and end the session.
    Finish,
}

/// The countdown of one session, counted in elapsed one-second ticks.
#[derive(Clone, Copy, Debug, PartialEq, Eq, Structural)]
pub struct Countdown {
    elapsed: u64,
    target: u64,
}

impl Countdown {
    pub closed spec fn elapsed_spec(&self) -> nat {
        self.elapsed as nat
    }

    pub closed spec fn target_spec(&self) -> nat {
        self.target as nat
    }

    pub open spec fn wf(&self) -> bool {
        0 < self.target_spec() && self.elapsed_spec() <= self.target_spec()
    }

    /// A countdown of one full session, nothing elapsed yet.
    pub fn new() -> (r: Countdown)
        ensures
            r.wf(),
            r.elapsed_spec() == 0,
            r.target_spec() == SESSION_TICKS,
    {
        Countdown { elapsed: 0, target: SESSION_TICKS }
    }

    /// A countdown of `ticks` seconds, nothing elapsed yet.
    pub fn with_ticks(ticks: u64) -> (r: Countdown)
        requires
            ticks > 0,
        ensures
            r.wf(),
            r.elapsed_spec() == 0,
            r.target_spec() == ticks,
    {
        Countdown { elapsed: 0, target: ticks }
    }

    /// Ticks elapsed so far.
    pub fn elapsed(&self) -> (r: u64)
        ensures
            r == self.elapsed_spec(),
    {
        self.elapsed
    }

    /// Ticks the whole session takes.
    pub fn target(&self) -> (r: u64)
        ensures
            r == self.target_spec(),
    {
        self.target
    }

    /// Whether the session's time is up.
    pub fn is_finished(&self) -> (r: bool)
        ensures
            r == (self.elapsed_spec() == self.target_spec()),
    {
        self.elapsed == self.target
    }

    /// One second has passed: counts it, and says whether the session ends
    /// with it.
    pub fn tick(&mut self) -> (r: TickAction)
        requires
            old(self).wf(),
            old(self).elapsed_spec() < old(self).target_spec(),
        ensures
            final(self).wf(),
            final(self).target_spec() == old(self).target_spec(),
            final(self).elapsed_spec() == old(self).elapsed_spec() + 1,
            r == TickAction::Finish <==> final(self).elapsed_spec() == final(self).target_spec(),
    {
        self.elapsed = self.elapsed + 1;
        if self.elapsed == self.target {
            TickAction::Finish
        } else {
            TickAction::Advance
        }
    }
}

} // verus!
