use vstd::prelude::*;

use crate::protocol::ser_de::codec::Codec;
use crate::protocol::ser_de::de::{self, Deserialize};
use crate::protocol::ser_de::model::Model;
use crate::protocol::ser_de::reader::Reader;
use crate::protocol::ser_de::ser::{self, Serialize};

verus! {

/// A rotation in steps of 1/256 of a full turn.
#[derive(Debug, Clone, PartialEq, Eq, PartialOrd, Ord, Hash)]
pub struct Angle(pub u8);

impl Angle {
    pub fn into_inner(self) -> (r: u8)
        ensures
            r == self.0,
    {
        self.0
    }
}

impl Model for Angle {
    type Abstract = u8;

    open spec fn model(&self) -> u8 {
        self.0
    }
}

impl Serialize for Angle {
    open spec fn spec_serialize(v: u8) -> Result<Seq<u8>, ser::Error> {
        u8::spec_serialize(v)
    }

    fn serialize(&self, writer: &mut Vec<u8>) -> (r: Result<(), ser::Error>) {
        self.0.serialize(writer)
    }
}

impl Deserialize for Angle {
    open spec fn spec_accepts(input: Seq<u8>) -> bool {
        true
    }

    open spec fn spec_deserialize(input: Seq<u8>) -> Result<(u8, nat), de::Error> {
        u8::spec_deserialize(input)
    }

    fn deserialize(reader: &mut Reader) -> (r: Result<Self, de::Error>) {
        match u8::deserialize(reader) {
            Ok(b) => Ok(Angle(b)),
            Err(e) => Err(e),
        }
    }
}

impl Codec for Angle {
    open spec fn spec_wf(v: u8) -> bool {
        true
    }

    proof fn lemma_roundtrip(v: u8, rest: Seq<u8>) {
        u8::lemma_roundtrip(v, rest);
    }
}

} // verus!
