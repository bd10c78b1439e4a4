//! Interval timers with rising-edge detection.

use vstd::prelude::*;

verus! {

/// Longest duration, in microseconds, that a timer threshold or a single
/// step may span.
pub const MAX_DURATION: u64 = 0x1_0000_0000;

/// A countdown, repeating or one-shot, measured in microseconds.
#[derive(Clone, Copy, Debug, PartialEq, Eq, Structural)]
pub struct Timer {
    pub elapsed: u64,
    pub threshold: u64,
    pub just_over: bool,
    pub repeat: bool,
}

impl Timer {
    pub open spec fn wf(self) -> bool {
        self.threshold <= MAX_DURATION && self.elapsed <= 2 * MAX_DURATION
    }

    pub open spec fn over(self) -> bool {
        self.elapsed > self.threshold
    }

    /// The timer after `dt` more microseconds: a one-shot timer that is over
    /// stays as it is; otherwise the edge flag records whether this step
    /// crossed the threshold, and a repeating timer starts again from zero
    /// when it did.
    pub open spec fn step(self, dt: u64) -> Timer {
        if self.over() && !self.repeat {
            self
        } else {
            let updated = self.elapsed + dt;
            let crossed = updated > self.threshold;
            Timer {
                elapsed: if crossed && self.repeat {
                    0
                } else {
                    updated as u64
                },
                just_over: crossed,
                ..self
            }
        }
    }

    /// The timer after each step of `dts`, in order.
    pub open spec fn run(self, dts: Seq<u64>) -> Timer
        decreases dts.len(),
    {
        if dts.len() == 0 {
            self
        } else {
            self.step(dts[0]).run(dts.drop_first())
        }
    }

    pub open spec fn new_spec(threshold: u64) -> Timer {
        Timer { elapsed: 0, threshold, just_over: false, repeat: true }
    }

    pub open spec fn new_timeout_spec(threshold: u64) -> Timer {
        Timer { elapsed: 0, threshold, just_over: false, repeat: false }
    }

    /// A repeating timer with the given threshold.
    pub fn new(threshold: u64) -> (r: Timer)
        requires
            threshold <= MAX_DURATION,
        ensures
            r == Timer::new_spec(threshold),
            r.wf(),
    {
        Timer { elapsed: 0, threshold, just_over: false, repeat: true }
    }

    /// A one-shot timer with the given threshold.
    pub fn new_timeout(threshold: u64) -> (r: Timer)
        requires
            threshold <= MAX_DURATION,
        ensures
            r == Timer::new_timeout_spec(threshold),
            r.wf(),
    {
        Timer { elapsed: 0, threshold, just_over: false, repeat: false }
    }

    pub fn reset(&mut self)
        ensures
            *final(self) == (Timer { elapsed: 0, just_over: false, ..*old(self) }),
    {
        self.elapsed = 0;
        self.just_over = false;
    }

    pub fn set_threshold(&mut self, threshold: u64)
        requires
            threshold <= MAX_DURATION,
        ensures
            *final(self) == (Timer { threshold, ..*old(self) }),
    {
        self.threshold = threshold;
    }

    pub fn elapsed(&self) -> (r: u64)
        ensures
            r == self.elapsed,
    {
        self.elapsed
    }

    pub fn is_over(&self) -> (r: bool)
        ensures
            r == self.over(),
    {
        self.elapsed > self.threshold
    }

    pub fn is_just_over(&self) -> (r: bool)
        ensures
            r == self.just_over,
    {
        self.just_over
    }

    pub fn update(&mut self, dt: u64)
        requires
            old(self).wf(),
            dt <= MAX_DURATION,
        ensures
            *final(self) == old(self).step(dt),
            final(self).wf(),
    {
        if self.elapsed > self.threshold && !self.repeat {
            return;
        }
        let updated = self.elapsed + dt;
        let crossed = updated > self.threshold;
        self.just_over = crossed;
        self.elapsed = if crossed && self.repeat {
            0
        } else {
            updated
        };
    }
}

/// A repeating timer raises its edge flag on exactly the steps that cross
/// its threshold, and each such step starts the count again from zero.
pub proof fn lemma_repeating_pulse(t: Timer, dt: u64)
    requires
        t.wf(),
        t.repeat,
    ensures
        t.step(dt).just_over <==> t.elapsed + dt > t.threshold,
        t.step(dt).just_over ==> t.step(dt).elapsed == 0,
        !t.step(dt).just_over ==> t.step(dt).elapsed == t.elapsed + dt,
{
}

/// Once a one-shot timer has crossed its threshold, it stays over with its
/// edge flag raised whatever steps follow, until it is reset.
pub proof fn lemma_timeout_stays_over(t: Timer, dts: Seq<u64>)
    requires
        !t.repeat,
        t.over(),
        t.just_over,
    ensures
        t.run(dts) == t,
    decreases dts.len(),
{
    if dts.len() > 0 {
        lemma_timeout_stays_over(t, dts.drop_first());
    }
}

/// After the step that crosses its threshold, a one-shot timer is over and
/// its edge flag is raised.
pub proof fn lemma_timeout_crossing(t: Timer, dt: u64)
    requires
        t.wf(),
        dt <= MAX_DURATION,
        !t.repeat,
        !t.over(),
        t.elapsed + dt > t.threshold,
    ensures
        t.step(dt).over(),
        t.step(dt).just_over,
{
}

} // verus!
