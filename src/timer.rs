use vstd::prelude::*;

verus! {

/// Nanoseconds in one second.
pub const NANOS_PER_SEC: u64 = 1_000_000_000;

/// Nanoseconds in one millisecond.
pub const NANOS_PER_MILLI: u64 = 1_000_000;

/// Whether a timer stops once it has finished, or starts over.
#[derive(Clone, Copy, Debug, PartialEq, Eq, Structural)]
pub enum TimerMode {
    Once,
    Repeating,
}

/// A countdown over elapsed time, in nanoseconds.
///
/// A `Once` timer counts up to its duration, reports that it finished on the
/// tick that reached it, and then stays finished. A `Repeating` timer wraps
/// around and reports how many times it went round on each tick.
#[derive(Clone, Copy, Debug, PartialEq, Eq, Structural)]
pub struct Timer {
    pub duration: u64,
    pub elapsed: u64,
    pub mode: TimerMode,
    pub finished: bool,
    pub times_finished_this_tick: u32,
}

/// The sum of a sequence of durations.
pub open spec fn total_of(ds: Seq<u64>) -> nat
    decreases ds.len(),
{
    if ds.len() == 0 {
        0
    } else {
        total_of(ds.drop_last()) + ds.last() as nat
    }
}

impl Timer {
    /// The timer's invariant: a finished `Once` timer rests at its duration, a
    /// `Repeating` timer has a positive duration and stays below it.
    pub open spec fn wf(self) -> bool {
        match self.mode {
            TimerMode::Once => self.elapsed <= self.duration && (self.finished ==> self.elapsed
                == self.duration),
            TimerMode::Repeating => self.duration > 0 && self.elapsed < self.duration,
        }
    }

    /// The timer after `delta` more nanoseconds have passed.
    pub open spec fn ticked(self, delta: nat) -> Timer {
        if self.mode == TimerMode::Once && self.finished {
            Timer { times_finished_this_tick: 0, ..self }
        } else if self.elapsed + delta >= self.duration {
            if self.mode == TimerMode::Once {
                Timer { elapsed: self.duration, finished: true, times_finished_this_tick: 1, ..self }
            } else {
                let total: nat = (self.elapsed + delta) as nat;
                let rounds = total / (self.duration as nat);
                Timer {
                    elapsed: (total % (self.duration as nat)) as u64,
                    finished: true,
                    times_finished_this_tick: if rounds > u32::MAX {
                        u32::MAX
                    } else {
                        rounds as u32
                    },
                    ..self
                }
            }
        } else {
            Timer {
                elapsed: (self.elapsed + delta) as u64,
                finished: false,
                times_finished_this_tick: 0,
                ..self
            }
        }
    }

    /// The timer after each duration of `ds` has been ticked in turn.
    pub open spec fn ticked_all(self, ds: Seq<u64>) -> Timer
        decreases ds.len(),
    {
        if ds.len() == 0 {
            self
        } else {
            self.ticked_all(ds.drop_last()).ticked(ds.last() as nat)
        }
    }

    /// Whether the last tick finished the timer at least once.
    pub open spec fn just_finished_spec(self) -> bool {
        self.times_finished_this_tick > 0
    }

    /// The fresh timer that `new` returns.
    pub open spec fn new_spec(duration: u64, mode: TimerMode) -> Timer {
        Timer { duration, elapsed: 0, mode, finished: false, times_finished_this_tick: 0 }
    }

    /// A fresh timer of `duration` nanoseconds.
    pub fn new(duration: u64, mode: TimerMode) -> (r: Timer)
        requires
            mode == TimerMode::Repeating ==> duration > 0,
        ensures
            r == Timer::new_spec(duration, mode),
            r.wf(),
    {
        Timer { duration, elapsed: 0, mode, finished: false, times_finished_this_tick: 0 }
    }

    /// Advances the timer by `delta` nanoseconds.
    pub fn tick(&mut self, delta: u64)
        requires
            old(self).wf(),
        ensures
            *final(self) == old(self).ticked(delta as nat),
            final(self).wf(),
    {
        if self.mode == TimerMode::Once && self.finished {
            self.times_finished_this_tick = 0;
            return;
        }
        let total: u128 = self.elapsed as u128 + delta as u128;
        if total >= self.duration as u128 {
            if self.mode == TimerMode::Once {
                self.elapsed = self.duration;
                self.finished = true;
                self.times_finished_this_tick = 1;
            } else {
                let d = self.duration as u128;
                let rounds = total / d;
                let rest = total % d;
                self.elapsed = rest as u64;
                self.finished = true;
                self.times_finished_this_tick = if rounds > u32::MAX as u128 {
                    u32::MAX
                } else {
                    rounds as u32
                };
            }
        } else {
            self.elapsed = total as u64;
            self.finished = false;
            self.times_finished_this_tick = 0;
        }
    }

    /// Whether the last tick finished the timer at least once.
    pub fn just_finished(&self) -> (r: bool)
        ensures
            r == self.just_finished_spec(),
    {
        self.times_finished_this_tick > 0
    }

    /// Whether the timer has finished (for a `Once` timer: at any tick so far).
    pub fn is_finished(&self) -> (r: bool)
        ensures
            r == self.finished,
    {
        self.finished
    }

    /// Nanoseconds left until the timer finishes.
    pub fn remaining(&self) -> (r: u64)
        requires
            self.wf(),
        ensures
            r == self.duration - self.elapsed,
    {
        self.duration - self.elapsed
    }
}

/// A fresh `Once` timer of duration `t`, ticked by the durations `ds` in turn,
/// is finished exactly when their sum has reached `t`, and rests at
/// `min(sum, t)`.
pub proof fn lemma_once_timer_progress(t: u64, ds: Seq<u64>)
    ensures
        ({
            let end = Timer::new_spec(t, TimerMode::Once).ticked_all(ds);
            &&& end.wf()
            &&& end.mode == TimerMode::Once
            &&& end.duration == t
            &&& end.finished == (ds.len() > 0 && total_of(ds) >= t)
            &&& end.elapsed == if total_of(ds) >= t {
                t as nat
            } else {
                total_of(ds)
            }
        }),
    decreases ds.len(),
{
    if ds.len() > 0 {
        lemma_once_timer_progress(t, ds.drop_last());
    }
}

/// A time-to-live of `t` nanoseconds, ticked by the durations `ds`, fires on
/// the tick where the cumulative elapsed time first reaches or exceeds `t`,
/// and on no other tick.
pub proof fn lemma_ttl_fires_when_time_reached(t: u64, ds: Seq<u64>)
    requires
        ds.len() > 0,
    ensures
        Timer::new_spec(t, TimerMode::Once).ticked_all(ds).just_finished_spec() <==> (total_of(ds)
            >= t && (ds.len() == 1 || total_of(ds.drop_last()) < t)),
{
    lemma_once_timer_progress(t, ds.drop_last());
}

} // verus!
