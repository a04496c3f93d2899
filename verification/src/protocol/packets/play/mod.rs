use vstd::prelude::*;

use crate::protocol::packets::all::{ClientboundPackets, Packets, ServerboundPackets};

verus! {

/// The serverbound packets of this state that the engine handles; there are
/// none, and the type has no value that code outside this module could
/// build.
pub struct PlaySB {
    _none: (),
}

impl ServerboundPackets for PlaySB {}

impl Packets for PlaySB {
    /// Listing this set is not implemented yet.
    open spec fn spec_enumerable() -> bool {
        false
    }

    open spec fn spec_all() -> Seq<Self> {
        Seq::empty()
    }

    fn get_all() -> (r: Vec<Self>) {
        Vec::new()
    }
}

/// The clientbound packets of this state that the engine sends; there are
/// none, and the type has no value that code outside this module could
/// build.
pub struct PlayCB {
    _none: (),
}

impl ClientboundPackets for PlayCB {}

impl Packets for PlayCB {
    /// Listing this set is not implemented yet.
    open spec fn spec_enumerable() -> bool {
        false
    }

    open spec fn spec_all() -> Seq<Self> {
        Seq::empty()
    }

    fn get_all() -> (r: Vec<Self>) {
        Vec::new()
    }
}

} // verus!
