use vstd::prelude::*;

use crate::protocol::data_types::array::Array;
use crate::protocol::data_types::identifier::Identifier;
use crate::protocol::data_types::proto_string::ProtoString;
use crate::protocol::data_types::uuid::Uuid;
use crate::protocol::data_types::var_int::VarInt;
use crate::protocol::ser_de::de::{self, Deserialize};
use crate::protocol::ser_de::model::Model;
use crate::protocol::ser_de::reader::Reader;

verus! {

/// The client's name and UUID at the start of login.
#[derive(Debug)]
pub struct LoginStart {
    pub name: ProtoString<16>,
    pub uuid: Uuid,
}

impl Model for LoginStart {
    type Abstract = (Seq<char>, Seq<u8>);

    open spec fn model(&self) -> (Seq<char>, Seq<u8>) {
        (self.name.model(), self.uuid.model())
    }
}

impl Deserialize for LoginStart {
    open spec fn spec_accepts(input: Seq<u8>) -> bool {
        <(ProtoString<16>, Uuid)>::spec_accepts(input)
    }

    open spec fn spec_deserialize(input: Seq<u8>) -> Result<((Seq<char>, Seq<u8>), nat), de::Error> {
        <(ProtoString<16>, Uuid)>::spec_deserialize(input)
    }

    fn deserialize(reader: &mut Reader) -> (r: Result<Self, de::Error>) {
        match <(ProtoString<16>, Uuid)>::deserialize(reader) {
            Ok((name, uuid)) => Ok(LoginStart { name, uuid }),
            Err(e) => Err(e),
        }
    }
}

/// The client's answer to a plugin request.
#[derive(Debug)]
pub struct LoginPluginResponse {
    pub message_id: VarInt,
    pub data: Option<Vec<u8>>,
}

impl Model for LoginPluginResponse {
    type Abstract = (i32, Option<Seq<u8>>);

    open spec fn model(&self) -> (i32, Option<Seq<u8>>) {
        (self.message_id.model(), self.data.model())
    }
}

impl Deserialize for LoginPluginResponse {
    open spec fn spec_accepts(input: Seq<u8>) -> bool {
        <(VarInt, Option<Vec<u8>>)>::spec_accepts(input)
    }

    open spec fn spec_deserialize(input: Seq<u8>) -> Result<((i32, Option<Seq<u8>>), nat), de::Error> {
        <(VarInt, Option<Vec<u8>>)>::spec_deserialize(input)
    }

    fn deserialize(reader: &mut Reader) -> (r: Result<Self, de::Error>) {
        match <(VarInt, Option<Vec<u8>>)>::deserialize(reader) {
            Ok((message_id, data)) => {
                Ok(LoginPluginResponse { message_id, data })
            },
            Err(e) => Err(e),
        }
    }
}

/// The client's confirmation that login finished; it carries nothing.
#[derive(Debug)]
pub struct LoginAcknowledged {}

impl Model for LoginAcknowledged {
    type Abstract = ();

    open spec fn model(&self) -> () {
        ()
    }
}

impl Deserialize for LoginAcknowledged {
    open spec fn spec_accepts(input: Seq<u8>) -> bool {
        true
    }

    open spec fn spec_deserialize(input: Seq<u8>) -> Result<((), nat), de::Error> {
        Ok(((), 0))
    }

    fn deserialize(reader: &mut Reader) -> (r: Result<Self, de::Error>) {
        assert(reader@.skip(0) =~= reader@);
        Ok(LoginAcknowledged {  })
    }
}

/// A cookie that the client returns.
#[derive(Debug)]
pub struct CookieResponse {
    pub key: Identifier,
    pub payload: Option<Array<u8, 5120>>,
}

impl Model for CookieResponse {
    type Abstract = (Seq<char>, Option<Seq<u8>>);

    open spec fn model(&self) -> (Seq<char>, Option<Seq<u8>>) {
        (self.key.model(), self.payload.model())
    }
}

impl Deserialize for CookieResponse {
    open spec fn spec_accepts(input: Seq<u8>) -> bool {
        <(Identifier, Option<Array<u8, 5120>>)>::spec_accepts(input)
    }

    open spec fn spec_deserialize(input: Seq<u8>) -> Result<((Seq<char>, Option<Seq<u8>>), nat), de::Error> {
        <(Identifier, Option<Array<u8, 5120>>)>::spec_deserialize(input)
    }

    fn deserialize(reader: &mut Reader) -> (r: Result<Self, de::Error>) {
        match <(Identifier, Option<Array<u8, 5120>>)>::deserialize(reader) {
            Ok((key, payload)) => Ok(CookieResponse { key, payload }),
            Err(e) => Err(e),
        }
    }
}

} // verus!
