use vstd::prelude::*;

verus! {

/// Run once at startup of the server.
#[derive(Hash, Debug, PartialEq, Eq, Clone, Copy)]
pub struct Startup;

/// First schedule that is run every tick.
#[derive(Hash, Debug, PartialEq, Eq, Clone, Copy)]
pub struct First;

/// Executed before the main [`Tick`].
#[derive(Hash, Debug, PartialEq, Eq, Clone, Copy)]
pub struct PreTick;

/// Executed 20 times per second or every 50ms.
#[derive(Hash, Debug, PartialEq, Eq, Clone, Copy)]
pub struct Tick;

/// Executed after the main [`Tick`].
#[derive(Hash, Debug, PartialEq, Eq, Clone, Copy)]
pub struct PostTick;

/// Last schedule that is run every tick.
#[derive(Hash, Debug, PartialEq, Eq, Clone, Copy)]
pub struct Last;

/// Executed when the shutdown flag is set.
#[derive(Hash, Debug, PartialEq, Eq, Clone, Copy)]
pub struct Shutdown;

} // verus!
