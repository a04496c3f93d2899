use vstd::prelude::*;

use crate::protocol::data_types::proto_string::{ProtoString, DEFAULT_MAX_LEN};
use crate::protocol::ser_de::codec::Codec;
use crate::protocol::ser_de::de::{self, Deserialize};
use crate::protocol::ser_de::model::Model;
use crate::protocol::ser_de::reader::Reader;
use crate::protocol::ser_de::ser::{self, Serialize};

verus! {

/// The answer to a ping.
#[derive(Debug)]
pub struct PongResponse {
    pub json_response: ProtoString<DEFAULT_MAX_LEN>,
}

impl Model for PongResponse {
    type Abstract = Seq<char>;

    open spec fn model(&self) -> Seq<char> {
        self.json_response.model()
    }
}

impl Serialize for PongResponse {
    open spec fn spec_serialize(v: Seq<char>) -> Result<Seq<u8>, ser::Error> {
        ProtoString::<DEFAULT_MAX_LEN>::spec_serialize(v)
    }

    fn serialize(&self, writer: &mut Vec<u8>) -> (r: Result<(), ser::Error>) {
        self.json_response.serialize(writer)
    }
}

/// The server's status as JSON text.
#[derive(Debug)]
pub struct StatusResponse {
    pub json_response: ProtoString<DEFAULT_MAX_LEN>,
}

impl Model for StatusResponse {
    type Abstract = Seq<char>;

    open spec fn model(&self) -> Seq<char> {
        self.json_response.model()
    }
}

impl Serialize for StatusResponse {
    open spec fn spec_serialize(v: Seq<char>) -> Result<Seq<u8>, ser::Error> {
        ProtoString::<DEFAULT_MAX_LEN>::spec_serialize(v)
    }

    fn serialize(&self, writer: &mut Vec<u8>) -> (r: Result<(), ser::Error>) {
        self.json_response.serialize(writer)
    }
}

impl Deserialize for StatusResponse {
    open spec fn spec_accepts(input: Seq<u8>) -> bool {
        true
    }

    open spec fn spec_deserialize(input: Seq<u8>) -> Result<(Seq<char>, nat), de::Error> {
        ProtoString::<DEFAULT_MAX_LEN>::spec_deserialize(input)
    }

    fn deserialize(reader: &mut Reader) -> (r: Result<Self, de::Error>) {
        match ProtoString::<DEFAULT_MAX_LEN>::deserialize(reader) {
            Ok(json_response) => Ok(StatusResponse { json_response }),
            Err(e) => Err(e),
        }
    }
}

impl Codec for StatusResponse {
    open spec fn spec_wf(v: Seq<char>) -> bool {
        true
    }

    proof fn lemma_roundtrip(v: Seq<char>, rest: Seq<u8>) {
        ProtoString::<DEFAULT_MAX_LEN>::lemma_roundtrip(v, rest);
    }
}

} // verus!
