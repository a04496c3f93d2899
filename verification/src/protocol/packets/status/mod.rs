pub mod clientbound;
pub mod serverbound;

use vstd::prelude::*;

use crate::protocol::packets::all::{ClientboundPackets, Packets, ServerboundPackets};
use crate::protocol::packets::status::clientbound::PongResponse;
use crate::protocol::packets::status::serverbound::PingRequest;

verus! {

pub enum StatusSB {
    PingRequest(PingRequest),
}

impl ServerboundPackets for StatusSB {}

impl Packets for StatusSB {
    /// The ping carries data, so the set cannot be listed.
    open spec fn spec_enumerable() -> bool {
        false
    }

    open spec fn spec_all() -> Seq<Self> {
        Seq::empty()
    }

    fn get_all() -> (r: Vec<Self>) {
        Vec::new()
    }
}

pub enum StatusCB {
    PongResponse(PongResponse),
}

impl ClientboundPackets for StatusCB {}

impl Packets for StatusCB {
    /// The pong carries data, so the set cannot be listed.
    open spec fn spec_enumerable() -> bool {
        false
    }

    open spec fn spec_all() -> Seq<Self> {
        Seq::empty()
    }

    fn get_all() -> (r: Vec<Self>) {
        Vec::new()
    }
}

} // verus!
