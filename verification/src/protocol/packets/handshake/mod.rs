pub mod serverbound;

use vstd::prelude::*;

use crate::protocol::packets::all::{ClientboundPackets, Packets, ServerboundPackets};
use crate::protocol::packets::handshake::serverbound::Handshake;

verus! {

pub enum HandshakeSB {
    Handshake(Handshake),
}

impl ServerboundPackets for HandshakeSB {}

impl Packets for HandshakeSB {
    /// The handshake packet carries data, so the set cannot be listed.
    open spec fn spec_enumerable() -> bool {
        false
    }

    open spec fn spec_all() -> Seq<Self> {
        Seq::empty()
    }

    fn get_all() -> (r: Vec<Self>) {
        Vec::new()
    }
}

/// The handshake state has no clientbound packets; the type has no value
/// that code outside this module could build.
pub struct HandshakeCB {
    _none: (),
}

impl ClientboundPackets for HandshakeCB {}

impl Packets for HandshakeCB {
    open spec fn spec_enumerable() -> bool {
        true
    }

    open spec fn spec_all() -> Seq<Self> {
        Seq::empty()
    }

    fn get_all() -> (r: Vec<Self>) {
        Vec::new()
    }
}

} // verus!
