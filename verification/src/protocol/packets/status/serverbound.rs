use vstd::prelude::*;

use crate::protocol::ser_de::de::{self, Deserialize};
use crate::protocol::ser_de::model::Model;
use crate::protocol::ser_de::reader::Reader;

verus! {

/// A ping carrying the client's timestamp.
#[derive(Debug)]
pub struct PingRequest {
    pub timestamp: i64,
}

impl Model for PingRequest {
    type Abstract = i64;

    open spec fn model(&self) -> i64 {
        self.timestamp
    }
}

impl Deserialize for PingRequest {
    open spec fn spec_accepts(input: Seq<u8>) -> bool {
        true
    }

    open spec fn spec_deserialize(input: Seq<u8>) -> Result<(i64, nat), de::Error> {
        i64::spec_deserialize(input)
    }

    fn deserialize(reader: &mut Reader) -> (r: Result<Self, de::Error>) {
        match i64::deserialize(reader) {
            Ok(timestamp) => Ok(PingRequest { timestamp }),
            Err(e) => Err(e),
        }
    }
}

/// A request for the server's status; it carries nothing.
#[derive(Debug)]
pub struct StatusRequest;

impl Model for StatusRequest {
    type Abstract = ();

    open spec fn model(&self) -> () {
        ()
    }
}

impl Deserialize for StatusRequest {
    open spec fn spec_accepts(input: Seq<u8>) -> bool {
        true
    }

    open spec fn spec_deserialize(input: Seq<u8>) -> Result<((), nat), de::Error> {
        Ok(((), 0))
    }

    fn deserialize(reader: &mut Reader) -> (r: Result<Self, de::Error>) {
        assert(reader@.skip(0) =~= reader@);
        Ok(StatusRequest)
    }
}

} // verus!
