use vstd::prelude::*;

use std::time::{Duration, Instant};

verus! {

/// Declares `std::time::Instant`, opaque, so that a timer can keep the moment
/// it was created.
#[verifier::external_type_specification]
#[verifier::external_body]
pub struct ExInstant(Instant);

/// How many nanoseconds `Duration::as_nanos` reports for `d`.
pub uninterp spec fn duration_nanos(d: Duration) -> u128;

/// Calls `Duration::as_nanos`; its contract names the result as a function
/// of the duration alone.
#[verifier::external_body]
fn as_nanos(d: Duration) -> (n: u128)
    ensures
        n == duration_nanos(d),
{
    d.as_nanos()
}

/// Calls `Instant::now`. Nothing is stated of the result, which comes from
/// the clock.
#[verifier::external_body]
fn now() -> Instant {
    Instant::now()
}

/// Calls `Instant::elapsed`. Nothing is stated of the result, which comes
/// from the clock.
#[verifier::external_body]
fn elapsed(origin: &Instant) -> Duration {
    origin.elapsed()
}

/// Whether a timer stops after its first expiry or starts over.
#[derive(Debug, PartialEq, Eq)]
pub enum TimerMode {
    Once,
    Repeating,
}

/// A timer that expires a fixed duration after it was started. Times are
/// kept in nanoseconds since the timer was created.
#[derive(Debug)]
pub struct Timer {
    duration: u128,
    origin: Instant,
    start: u128,
    mode: TimerMode,
    has_finished: bool,
}

impl Timer {
    /// The timer's duration in nanoseconds.
    pub closed spec fn duration(self) -> u128 {
        self.duration
    }

    /// When the current period started, in nanoseconds since creation.
    pub closed spec fn start(self) -> u128 {
        self.start
    }

    pub closed spec fn mode(self) -> TimerMode {
        self.mode
    }

    pub closed spec fn finished(self) -> bool {
        self.has_finished
    }

    /// The moment the timer was created, from which its times are counted.
    pub closed spec fn origin(self) -> Instant {
        self.origin
    }

    /// A repeating timer never finishes.
    #[verifier::type_invariant]
    spec fn repeating_not_finished(self) -> bool {
        self.mode == TimerMode::Repeating ==> !self.has_finished
    }

    pub fn new(duration: Duration, mode: TimerMode) -> (t: Self)
        ensures
            t.duration() == duration_nanos(duration),
            t.start() == 0,
            t.mode() == mode,
            !t.finished(),
    {
        Self { duration: as_nanos(duration), origin: now(), start: 0, mode, has_finished: false }
    }

    /// Whether ticking `before` at `now` nanoseconds since creation gives
    /// `after` and reports `fired`: the timer expires when at least its
    /// duration has passed since the start of the period (a start in the
    /// future counts as no time passed) and it has not finished; a timer that
    /// runs once then finishes, a repeating one starts its next period where
    /// this one ended.
    pub open spec fn ticks_to(before: Timer, after: Timer, now: u128, fired: bool) -> bool {
        &&& fired == (!before.finished() && (if now >= before.start() {
            now - before.start()
        } else {
            0
        }) >= before.duration())
        &&& before.mode() == TimerMode::Repeating ==> !before.finished()
        &&& after.duration() == before.duration()
        &&& after.mode() == before.mode()
        &&& after.origin() == before.origin()
        &&& fired && before.mode() == TimerMode::Once ==> after.finished() && after.start() == before.start()
        &&& fired && before.mode() == TimerMode::Repeating ==> !after.finished() && after.start() == (if now
            >= before.start() {
            before.start() + before.duration()
        } else {
            now as int
        })
        &&& !fired ==> after == before
    }

    /// Checks, at `now` nanoseconds since creation, whether the timer expires:
    /// it does when at least its duration has passed since the start of the
    /// period (a start in the future counts as no time passed) and it has not
    /// finished. A timer that runs once then finishes; a repeating one starts
    /// its next period where this one ended.
    pub fn tick_at(&mut self, now: u128) -> (fired: bool)
        ensures
            Self::ticks_to(*old(self), *final(self), now, fired),
    {
        proof {
            use_type_invariant(&*self);
        }
        let time_difference = if now >= self.start {
            now - self.start
        } else {
            0
        };
        if time_difference >= self.duration && !self.has_finished {
            match self.mode {
                TimerMode::Once => self.has_finished = true,
                TimerMode::Repeating => self.start = now - (time_difference - self.duration),
            }
            true
        } else {
            false
        }
    }

    /// Ticks the timer at the current time and tells whether it expired.
    pub fn tick(&mut self) -> (fired: bool)
        ensures
            exists|now: u128| #[trigger] Self::ticks_to(*old(self), *final(self), now, fired),
    {
        let now = as_nanos(elapsed(&self.origin));
        self.tick_at(now)
    }

    /// Restarts the timer at `now` nanoseconds since creation.
    pub fn reset_at(&mut self, now: u128)
        ensures
            final(self).start() == now,
            !final(self).finished(),
            final(self).duration() == old(self).duration(),
            final(self).mode() == old(self).mode(),
            final(self).origin() == old(self).origin(),
    {
        proof {
            use_type_invariant(&*self);
        }
        self.start = now;
        self.has_finished = false;
    }

    /// Restarts the timer at the current time.
    pub fn reset(&mut self)
        ensures
            !final(self).finished(),
            final(self).duration() == old(self).duration(),
            final(self).mode() == old(self).mode(),
            final(self).origin() == old(self).origin(),
    {
        let now = as_nanos(elapsed(&self.origin));
        self.reset_at(now);
    }

    /// Whether a timer that runs once has expired.
    pub fn has_finished(&self) -> (b: bool)
        ensures
            b == self.finished(),
            self.mode() == TimerMode::Repeating ==> !b,
    {
        proof {
            use_type_invariant(self);
        }
        self.has_finished
    }
}

/// Whether `ts` is a run of ticks: each timer is what ticking the one before
/// at `nows[i]` gives, reporting `fired[i]`.
pub open spec fn tick_run(ts: Seq<Timer>, nows: Seq<u128>, fired: Seq<bool>) -> bool {
    &&& ts.len() == nows.len() + 1
    &&& fired.len() == nows.len()
    &&& forall|i: int| 0 <= i < nows.len() ==> Timer::ticks_to(ts[i], ts[i + 1], #[trigger] nows[i], fired[i])
}

proof fn lemma_once_run(ts: Seq<Timer>, nows: Seq<u128>, fired: Seq<bool>, i: int)
    requires
        tick_run(ts, nows, fired),
        ts[0].mode() == TimerMode::Once,
        0 <= i < ts.len(),
    ensures
        ts[i].mode() == TimerMode::Once,
        ts[i].finished() <==> (ts[0].finished() || exists|j: int| 0 <= j < i && #[trigger] fired[j]),
    decreases i,
{
    if i > 0 {
        lemma_once_run(ts, nows, fired, i - 1);
        assert(Timer::ticks_to(ts[i - 1], ts[i], nows[i - 1], fired[i - 1]));
        if exists|j: int| 0 <= j < i && #[trigger] fired[j] {
            let j = choose|j: int| 0 <= j < i && #[trigger] fired[j];
            if j < i - 1 {
                assert(exists|k: int| 0 <= k < i - 1 && #[trigger] fired[k]);
            }
        }
    }
}

/// A timer that runs once, ticked any number of times without a reset,
/// fires at most once: it is finished exactly when it was finished at the
/// start or some tick of the run fired, and no tick after a firing one fires.
pub proof fn lemma_once_fires_at_most_once(ts: Seq<Timer>, nows: Seq<u128>, fired: Seq<bool>)
    requires
        tick_run(ts, nows, fired),
        ts[0].mode() == TimerMode::Once,
    ensures
        forall|i: int|
            0 <= i < ts.len() ==> (#[trigger] ts[i].finished() <==> (ts[0].finished() || exists|j: int|
                0 <= j < i && #[trigger] fired[j])),
        forall|i: int, j: int| 0 <= i < j < fired.len() && #[trigger] fired[i] ==> !#[trigger] fired[j],
{
    assert forall|i: int|
        0 <= i < ts.len() implies (#[trigger] ts[i].finished() <==> (ts[0].finished() || exists|j: int|
            0 <= j < i && #[trigger] fired[j])) by {
        lemma_once_run(ts, nows, fired, i);
    }
    assert forall|i: int, j: int| 0 <= i < j < fired.len() && #[trigger] fired[i] implies !#[trigger] fired[j] by {
        lemma_once_run(ts, nows, fired, j);
        assert(Timer::ticks_to(ts[j], ts[j + 1], nows[j], fired[j]));
        assert(0 <= i < j && fired[i]);
    }
}

/// A repeating timer ticked any number of times is never finished, so it
/// fires on every tick at which its duration has passed.
pub proof fn lemma_repeating_never_finishes(ts: Seq<Timer>, nows: Seq<u128>, fired: Seq<bool>)
    requires
        tick_run(ts, nows, fired),
        ts[0].mode() == TimerMode::Repeating,
        !ts[0].finished(),
    ensures
        forall|i: int| 0 <= i < ts.len() ==> #[trigger] ts[i].mode() == TimerMode::Repeating && !ts[i].finished(),
        forall|i: int|
            0 <= i < nows.len() ==> (#[trigger] fired[i] <==> (if nows[i] >= ts[i].start() {
                nows[i] - ts[i].start()
            } else {
                0
            }) >= ts[i].duration()),
{
    lemma_repeating_run(ts, nows, fired, ts.len() - 1);
    assert forall|i: int| 0 <= i < ts.len() implies #[trigger] ts[i].mode() == TimerMode::Repeating && !ts[i].finished() by {
        lemma_repeating_run(ts, nows, fired, i);
    }
    assert forall|i: int| 0 <= i < nows.len() implies (#[trigger] fired[i] <==> (if nows[i] >= ts[i].start() {
        nows[i] - ts[i].start()
    } else {
        0
    }) >= ts[i].duration()) by {
        lemma_repeating_run(ts, nows, fired, i);
        assert(Timer::ticks_to(ts[i], ts[i + 1], nows[i], fired[i]));
    }
}

proof fn lemma_repeating_run(ts: Seq<Timer>, nows: Seq<u128>, fired: Seq<bool>, i: int)
    requires
        tick_run(ts, nows, fired),
        ts[0].mode() == TimerMode::Repeating,
        !ts[0].finished(),
        0 <= i < ts.len(),
    ensures
        ts[i].mode() == TimerMode::Repeating && !ts[i].finished(),
    decreases i,
{
    if i > 0 {
        lemma_repeating_run(ts, nows, fired, i - 1);
        assert(Timer::ticks_to(ts[i - 1], ts[i], nows[i - 1], fired[i - 1]));
    }
}

} // verus!
