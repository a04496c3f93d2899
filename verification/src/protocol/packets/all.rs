use vstd::prelude::*;

verus! {

/// The packets of one direction of one connection state.
pub trait Packets: Sized {
    /// Whether listing the packets of the set is implemented; so far it is
    /// only for the handshake's clientbound set, which has no packets.
    spec fn spec_enumerable() -> bool;

    /// The packets of the set, when it is enumerable.
    spec fn spec_all() -> Seq<Self>;

    fn get_all() -> (r: Vec<Self>)
        requires
            Self::spec_enumerable(),
        ensures
            r@ == Self::spec_all(),
    ;
}

/// Packets that the server sends.
pub trait ClientboundPackets: Packets {}

/// Packets that the client sends.
pub trait ServerboundPackets: Packets {}

/// The packets of both directions of one connection state.
pub struct PacketsList<SB: ServerboundPackets, CB: ClientboundPackets> {
    pub clientbound: Vec<CB>,
    pub serverbound: Vec<SB>,
}

impl<SB: ServerboundPackets, CB: ClientboundPackets> PacketsList<SB, CB> {
    pub fn get_all() -> (r: Self)
        requires
            SB::spec_enumerable(),
            CB::spec_enumerable(),
        ensures
            r.clientbound@ == CB::spec_all(),
            r.serverbound@ == SB::spec_all(),
    {
        Self { clientbound: CB::get_all(), serverbound: SB::get_all() }
    }
}

} // verus!
