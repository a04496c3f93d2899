use vstd::prelude::*;

verus! {

/// The length of one tick in nanoseconds (50 ms, 20 ticks per second).
pub const TICK_NANOS: u128 = 50_000_000;

/// Whether the application has been asked to shut down.
#[derive(Debug, Default)]
pub struct ShutdownFlag(bool);

impl View for ShutdownFlag {
    type V = bool;

    closed spec fn view(&self) -> bool {
        self.0
    }
}

impl ShutdownFlag {
    pub fn new() -> (f: Self)
        ensures
            !f@,
    {
        Self(false)
    }

    pub fn is_set(&self) -> (b: bool)
        ensures
            b == self@,
    {
        self.0
    }
}

/// Why running the application failed before it started.
#[derive(Debug, Clone, Copy, PartialEq, Eq)]
pub enum RunError {
    /// `run` was called a second time.
    AlreadyStarted,
}

/// The message of [`RunError::AlreadyStarted`].
pub const ALREADY_STARTED_MESSAGE: &'static str = "App::run() called multiple times";

/// What the tick loop does after the schedules of a tick have run.
#[derive(Debug, Clone, Copy, PartialEq, Eq)]
pub enum AfterTick {
    /// The shutdown flag is set: run the shutdown schedule and stop.
    Shutdown,
    /// Sleep for this many nanoseconds, then start the next tick.
    Sleep(u128),
    /// The tick took its whole length or more: start the next tick at once.
    Continue,
}

/// The decision after a tick that took `elapsed` nanoseconds, with the
/// shutdown flag `shutdown`.
pub open spec fn after_tick_spec(shutdown: bool, elapsed: u128) -> AfterTick {
    if shutdown {
        AfterTick::Shutdown
    } else if elapsed < TICK_NANOS {
        AfterTick::Sleep((TICK_NANOS - elapsed) as u128)
    } else {
        AfterTick::Continue
    }
}

/// Once shutdown has been asked for, the loop stops, however long the tick
/// took. Otherwise it sleeps exactly what is left of the 50 ms tick, or, when
/// the tick used all of it, goes on at once.
pub proof fn lemma_after_tick(shutdown: bool, elapsed: u128)
    ensures
        shutdown ==> after_tick_spec(shutdown, elapsed) == AfterTick::Shutdown,
        !shutdown && elapsed < 50_000_000 ==> after_tick_spec(shutdown, elapsed) == AfterTick::Sleep((50_000_000 - elapsed) as u128),
        !shutdown && elapsed >= 50_000_000 ==> after_tick_spec(shutdown, elapsed) == AfterTick::Continue,
{
}

/// Decides what follows a tick: stop on shutdown, otherwise sleep out the
/// rest of the tick's 50 ms.
pub fn after_tick(shutdown: bool, elapsed: u128) -> (r: AfterTick)
    ensures
        r == after_tick_spec(shutdown, elapsed),
        shutdown ==> r == AfterTick::Shutdown,
        r matches AfterTick::Sleep(n) ==> !shutdown && n > 0 && n + elapsed == 50_000_000,
        r == AfterTick::Continue ==> !shutdown && elapsed >= 50_000_000,
{
    if shutdown {
        AfterTick::Shutdown
    } else if elapsed < TICK_NANOS {
        AfterTick::Sleep(TICK_NANOS - elapsed)
    } else {
        AfterTick::Continue
    }
}

/// Whether the application's tick loop has been started.
#[derive(Debug)]
pub struct RunState {
    started: bool,
}

impl RunState {
    pub closed spec fn started(self) -> bool {
        self.started
    }

    pub fn new() -> (s: Self)
        ensures
            !s.started(),
    {
        RunState { started: false }
    }

    /// Marks the loop as started; fails if it already was, so that the loop
    /// runs at most once.
    pub fn begin(&mut self) -> (r: Result<(), RunError>)
        ensures
            old(self).started() ==> r == Err::<(), RunError>(RunError::AlreadyStarted),
            !old(self).started() ==> r is Ok,
            final(self).started(),
    {
        if self.started {
            return Err(RunError::AlreadyStarted);
        }
        self.started = true;
        Ok(())
    }
}

/// The names of the plugins added to an application, each once.
#[derive(Debug)]
pub struct PluginRegistry {
    names: Vec<String>,
}

impl PluginRegistry {
    /// Whether the `j`-th recorded name is `x`.
    closed spec fn holds_at(self, j: int, x: Seq<char>) -> bool {
        0 <= j < self.names@.len() && self.names@[j]@ == x
    }

    /// The names added so far.
    pub closed spec fn names(self) -> Set<Seq<char>> {
        Set::new(|x: Seq<char>| exists|j: int| #[trigger] self.holds_at(j, x))
    }

    pub fn new() -> (r: Self)
        ensures
            r.names() == Set::<Seq<char>>::empty(),
    {
        let r = PluginRegistry { names: Vec::new() };
        assert(r.names() =~= Set::<Seq<char>>::empty());
        r
    }

    /// Whether a plugin called `name` has been added.
    pub fn contains(&self, name: &str) -> (b: bool)
        ensures
            b == self.names().contains(name@),
    {
        let owned = name.to_owned();
        let mut i: usize = 0;
        while i < self.names.len()
            invariant
                i <= self.names@.len(),
                owned@ == name@,
                forall|j: int| 0 <= j < i ==> !#[trigger] self.holds_at(j, name@),
            decreases self.names.len() - i,
        {
            if self.names[i] == owned {
                assert(self.holds_at(i as int, name@));
                return true;
            }
            i = i + 1;
        }
        false
    }

    /// Whether a plugin called `name` may be added: one that must stay
    /// unique may not be added twice.
    pub open spec fn may_add(self, name: Seq<char>, is_unique: bool) -> bool {
        !(is_unique && self.names().contains(name))
    }

    /// Records a plugin called `name`.
    pub fn add(&mut self, name: &str, is_unique: bool)
        requires
            old(self).may_add(name@, is_unique),
        ensures
            final(self).names() == old(self).names().insert(name@),
    {
        if !self.contains(name) {
            let ghost before = *self;
            self.names.push(name.to_owned());
            assert forall|x: Seq<char>| self.names().contains(x) <==> before.names().insert(name@).contains(x) by {
                if self.names().contains(x) {
                    let j = choose|j: int| #[trigger] self.holds_at(j, x);
                    if j < before.names@.len() {
                        assert(before.holds_at(j, x));
                    }
                }
                if before.names().contains(x) {
                    let j = choose|j: int| #[trigger] before.holds_at(j, x);
                    assert(self.holds_at(j, x));
                }
                if x == name@ {
                    assert(self.holds_at(before.names@.len() as int, x));
                }
            }
            assert(self.names() =~= before.names().insert(name@));
        } else {
            assert(old(self).names().insert(name@) =~= old(self).names());
        }
    }
}

} // verus!
