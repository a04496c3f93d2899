use vstd::prelude::*;

use crate::protocol::data_types::proto_string::{ProtoString, DEFAULT_MAX_LEN};
use crate::protocol::ser_de::codec::Codec;
use crate::protocol::ser_de::de::{self, Deserialize};
use crate::protocol::ser_de::model::Model;
use crate::protocol::ser_de::reader::Reader;
use crate::protocol::ser_de::ser::{self, Serialize};

verus! {

/// A namespaced identifier, carried on the wire as a protocol string.
#[derive(Debug, Clone, PartialEq, Eq, PartialOrd, Ord, Hash)]
pub struct Identifier(ProtoString<DEFAULT_MAX_LEN>);

impl Identifier {
    pub fn new(identifier: String) -> (r: Self)
        ensures
            r@ == identifier@,
    {
        Identifier(ProtoString::new(identifier))
    }

    pub fn into_inner(self) -> (r: String)
        ensures
            r@ == self@,
    {
        self.0.into_inner()
    }

    pub fn as_str(&self) -> (r: &str)
        ensures
            r@ == self@,
    {
        self.0.as_str()
    }
}

impl View for Identifier {
    type V = Seq<char>;

    closed spec fn view(&self) -> Seq<char> {
        self.0@
    }
}

impl Model for Identifier {
    type Abstract = Seq<char>;

    open spec fn model(&self) -> Seq<char> {
        self@
    }
}

impl Serialize for Identifier {
    open spec fn spec_serialize(v: Seq<char>) -> Result<Seq<u8>, ser::Error> {
        ProtoString::<DEFAULT_MAX_LEN>::spec_serialize(v)
    }

    fn serialize(&self, writer: &mut Vec<u8>) -> (r: Result<(), ser::Error>) {
        self.0.serialize(writer)
    }
}

impl Deserialize for Identifier {
    open spec fn spec_accepts(input: Seq<u8>) -> bool {
        true
    }

    open spec fn spec_deserialize(input: Seq<u8>) -> Result<(Seq<char>, nat), de::Error> {
        ProtoString::<DEFAULT_MAX_LEN>::spec_deserialize(input)
    }

    fn deserialize(reader: &mut Reader) -> (r: Result<Self, de::Error>) {
        match ProtoString::<DEFAULT_MAX_LEN>::deserialize(reader) {
            Ok(s) => Ok(Identifier(s)),
            Err(e) => Err(e),
        }
    }
}

impl Codec for Identifier {
    open spec fn spec_wf(v: Seq<char>) -> bool {
        true
    }

    proof fn lemma_roundtrip(v: Seq<char>, rest: Seq<u8>) {
        ProtoString::<DEFAULT_MAX_LEN>::lemma_roundtrip(v, rest);
    }
}

} // verus!
