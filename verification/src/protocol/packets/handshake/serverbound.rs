use vstd::prelude::*;

use crate::protocol::data_types::proto_string::ProtoString;
use crate::protocol::data_types::var_int::VarInt;
use crate::protocol::ser_de::de::{self, Deserialize};
use crate::protocol::ser_de::model::Model;
use crate::protocol::ser_de::reader::Reader;

verus! {

/// What the client intends to do after the handshake.
#[derive(Debug, Clone, Copy, PartialEq, Eq, Hash)]
pub enum Intent {
    Status,
    Login,
    Transfer,
}

/// The intent that the wire value `v` names, if any.
pub open spec fn intent_of(v: i32) -> Option<Intent> {
    if v == 1 {
        Some(Intent::Status)
    } else if v == 2 {
        Some(Intent::Login)
    } else if v == 3 {
        Some(Intent::Transfer)
    } else {
        None
    }
}

impl Model for Intent {
    type Abstract = Intent;

    open spec fn model(&self) -> Intent {
        *self
    }
}

impl Deserialize for Intent {
    open spec fn spec_accepts(input: Seq<u8>) -> bool {
        true
    }

    open spec fn spec_deserialize(input: Seq<u8>) -> Result<(Intent, nat), de::Error> {
        match VarInt::spec_deserialize(input) {
            Err(e) => Err(e),
            Ok((v, n)) => match intent_of(v) {
                Some(intent) => Ok((intent, n)),
                None => Err(de::Error::Syntax),
            },
        }
    }

    fn deserialize(reader: &mut Reader) -> (r: Result<Self, de::Error>) {
        let intent = match VarInt::deserialize(reader) {
            Ok(v) => v.0,
            Err(e) => return Err(e),
        };
        proof {
            crate::protocol::ser_de::seq_facts::lemma_skip_is_suffix(old(reader)@, VarInt::spec_deserialize(old(reader)@)->Ok_0.1 as int);
        }
        match intent {
            1 => Ok(Intent::Status),
            2 => Ok(Intent::Login),
            3 => Ok(Intent::Transfer),
            _ => Err(de::Error::Syntax),
        }
    }
}

/// The first packet of a connection.
#[derive(Debug)]
pub struct Handshake {
    pub protocol_version: VarInt,
    pub server_address: ProtoString<255>,
    pub server_port: u16,
    pub intent: Intent,
}

/// The fields of [`Handshake`] in wire order.
pub type HandshakeFields = (VarInt, (ProtoString<255>, (u16, Intent)));

impl Model for Handshake {
    type Abstract = (i32, (Seq<char>, (u16, Intent)));

    open spec fn model(&self) -> (i32, (Seq<char>, (u16, Intent))) {
        (self.protocol_version.model(), (self.server_address.model(), (self.server_port, self.intent)))
    }
}

impl Deserialize for Handshake {
    open spec fn spec_accepts(input: Seq<u8>) -> bool {
        HandshakeFields::spec_accepts(input)
    }

    open spec fn spec_deserialize(input: Seq<u8>) -> Result<((i32, (Seq<char>, (u16, Intent))), nat), de::Error> {
        HandshakeFields::spec_deserialize(input)
    }

    fn deserialize(reader: &mut Reader) -> (r: Result<Self, de::Error>) {
        match HandshakeFields::deserialize(reader) {
            Ok((protocol_version, (server_address, (server_port, intent)))) => Ok(
                Handshake { protocol_version, server_address, server_port, intent },
            ),
            Err(e) => Err(e),
        }
    }
}

} // verus!
