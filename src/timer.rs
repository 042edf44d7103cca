use vstd::prelude::*;

verus! {

/// A one-shot countdown over nanoseconds. Once it has finished it stays
/// finished; `just_finished` is set only by the tick on which it finished.
#[derive(Clone, Copy, Debug, PartialEq, Eq, Structural)]
pub struct Countdown {
    pub duration: u64,
    pub elapsed: u64,
    pub finished: bool,
    pub just_finished: bool,
}

impl Countdown {
    pub open spec fn wf(&self) -> bool {
        &&& self.elapsed <= self.duration
        &&& self.finished ==> self.elapsed == self.duration
        &&& self.just_finished ==> self.finished
    }

    /// A countdown of `duration` nanoseconds that has not started.
    pub open spec fn fresh(duration: u64) -> Countdown {
        Countdown { duration, elapsed: 0, finished: false, just_finished: false }
    }

    /// Whether `wf` holds.
    pub fn is_well_formed(&self) -> (r: bool)
        ensures
            r == self.wf(),
    {
        self.elapsed <= self.duration && (!self.finished || self.elapsed == self.duration) && (
        !self.just_finished || self.finished)
    }

    /// The countdown after `delta` more nanoseconds have passed.
    pub open spec fn ticked(self, delta: int) -> Countdown {
        if self.finished {
            Countdown { just_finished: false, ..self }
        } else if self.elapsed + delta >= self.duration {
            Countdown { elapsed: self.duration, finished: true, just_finished: true, ..self }
        } else {
            Countdown { elapsed: (self.elapsed + delta) as u64, ..self }
        }
    }

    /// A fresh countdown of `duration` nanoseconds.
    pub fn new(duration: u64) -> (r: Self)
        ensures
            r.wf(),
            r == Countdown::fresh(duration),
    {
        Countdown { duration, elapsed: 0, finished: false, just_finished: false }
    }

    /// Advances the countdown by `delta` nanoseconds, stopping at its duration.
    pub fn tick(&mut self, delta: u64)
        requires
            old(self).wf(),
        ensures
            final(self).wf(),
            *final(self) == old(self).ticked(delta as int),
    {
        if self.finished {
            self.just_finished = false;
        } else if delta >= self.duration - self.elapsed {
            self.elapsed = self.duration;
            self.finished = true;
            self.just_finished = true;
        } else {
            self.elapsed = self.elapsed + delta;
        }
    }
}

/// Time only moves a countdown forward, never past its duration, and a
/// countdown that has not finished finishes exactly when the time added
/// covers what remained.
pub proof fn lemma_ticked_progress(c: Countdown, delta: int)
    requires
        c.wf(),
        0 <= delta,
    ensures
        c.ticked(delta).wf(),
        c.elapsed <= c.ticked(delta).elapsed <= c.duration,
        c.ticked(delta).duration == c.duration,
        !c.finished ==> (c.ticked(delta).just_finished <==> delta >= c.duration - c.elapsed),
        !c.finished && delta < c.duration - c.elapsed ==> c.ticked(delta).elapsed == c.elapsed
            + delta,
{
}

} // verus!
