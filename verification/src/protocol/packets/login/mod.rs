pub mod clientbound;
pub mod serverbound;

use vstd::prelude::*;

use crate::protocol::packets::all::{ClientboundPackets, Packets, ServerboundPackets};

verus! {

/// The serverbound packets of this state that the engine handles; there are
/// none, and the type has no value that code outside this module could
/// build.
pub struct LoginSB {
    _none: (),
}

impl ServerboundPackets for LoginSB {}

impl Packets for LoginSB {
    /// Listing this set is not implemented yet.
    open spec fn spec_enumerable() -> bool {
        false
    }

    open spec fn spec_all() -> Seq<Self> {
        Seq::empty()
    }

    fn get_all() -> (r: Vec<Self>) {
        Vec::new()
    }
}

/// The clientbound packets of this state that the engine sends; there are
/// none, and the type has no value that code outside this module could
/// build.
pub struct LoginCB {
    _none: (),
}

impl ClientboundPackets for LoginCB {}

impl Packets for LoginCB {
    /// Listing this set is not implemented yet.
    open spec fn spec_enumerable() -> bool {
        false
    }

    open spec fn spec_all() -> Seq<Self> {
        Seq::empty()
    }

    fn get_all() -> (r: Vec<Self>) {
        Vec::new()
    }
}

} // verus!
