use vstd::prelude::*;

use crate::common::text::{push_str, string_from_chars};
use crate::protocol::data_types::proto_string::{ProtoString, DEFAULT_MAX_LEN};
use crate::protocol::data_types::uuid::{hyphenated, Uuid};
use crate::protocol::ser_de::codec::Codec;
use crate::protocol::ser_de::compound::serialize_triple;
use crate::protocol::ser_de::de::{self, Deserialize};
use crate::protocol::ser_de::model::Model;
use crate::protocol::ser_de::reader::Reader;
use crate::protocol::ser_de::ser::{self, Serialize};

verus! {

/// The signed properties of a player profile, such as its skin.
#[derive(Debug, Clone, PartialEq, Eq, PartialOrd, Ord, Hash)]
pub struct GameProfileProperties {
    pub name: ProtoString<64>,
    pub value: ProtoString<DEFAULT_MAX_LEN>,
    pub signature: Option<ProtoString<1024>>,
}

/// A player's identity: UUID, name and properties.
#[derive(Debug, Clone, PartialEq, Eq, PartialOrd, Ord, Hash)]
pub struct GameProfile {
    pub uuid: Uuid,
    pub username: ProtoString<16>,
    pub properties: Vec<GameProfileProperties>,
}

/// The fields of [`GameProfileProperties`] in wire order.
pub type PropertiesFields = (ProtoString<64>, (ProtoString<DEFAULT_MAX_LEN>, Option<ProtoString<1024>>));

/// The fields of [`GameProfile`] in wire order.
pub type ProfileFields = (Uuid, (ProtoString<16>, Vec<GameProfileProperties>));

impl GameProfileProperties {
    pub fn new(
        name: ProtoString<64>,
        value: ProtoString<DEFAULT_MAX_LEN>,
        signature: Option<ProtoString<1024>>,
    ) -> (r: Self)
        ensures
            r == (GameProfileProperties { name, value, signature }),
    {
        Self { name, value, signature }
    }
}

impl GameProfile {
    pub fn new(uuid: Uuid, username: ProtoString<16>, properties: Vec<GameProfileProperties>) -> (r: Self)
        ensures
            r == (GameProfile { uuid, username, properties }),
    {
        Self { uuid, username, properties }
    }

    /// The profile as text: `<name> with UUID <hyphenated uuid>`.
    pub fn describe(&self) -> (s: String)
        ensures
            s@ == self.username@ + " with UUID "@ + hyphenated(self.uuid@),
    {
        let mut out: Vec<char> = Vec::new();
        push_str(&mut out, self.username.as_str());
        push_str(&mut out, " with UUID ");
        let uuid_text = self.uuid.to_hyphenated_string();
        push_str(&mut out, uuid_text.as_str());
        assert(out@ =~= self.username@ + " with UUID "@ + hyphenated(self.uuid@));
        string_from_chars(out)
    }
}

impl Model for GameProfileProperties {
    type Abstract = (Seq<char>, (Seq<char>, Option<Seq<char>>));

    open spec fn model(&self) -> (Seq<char>, (Seq<char>, Option<Seq<char>>)) {
        (self.name.model(), (self.value.model(), self.signature.model()))
    }
}

impl Serialize for GameProfileProperties {
    open spec fn spec_serialize(v: (Seq<char>, (Seq<char>, Option<Seq<char>>))) -> Result<Seq<u8>, ser::Error> {
        PropertiesFields::spec_serialize(v)
    }

    fn serialize(&self, writer: &mut Vec<u8>) -> (r: Result<(), ser::Error>) {
        serialize_triple(&self.name, &self.value, &self.signature, writer)
    }
}

impl Deserialize for GameProfileProperties {
    open spec fn spec_accepts(input: Seq<u8>) -> bool {
        PropertiesFields::spec_accepts(input)
    }

    open spec fn spec_deserialize(input: Seq<u8>) -> Result<((Seq<char>, (Seq<char>, Option<Seq<char>>)), nat), de::Error> {
        PropertiesFields::spec_deserialize(input)
    }

    fn deserialize(reader: &mut Reader) -> (r: Result<Self, de::Error>) {
        match PropertiesFields::deserialize(reader) {
            Ok((name, (value, signature))) => Ok(GameProfileProperties { name, value, signature }),
            Err(e) => Err(e),
        }
    }
}

impl Codec for GameProfileProperties {
    open spec fn spec_wf(v: (Seq<char>, (Seq<char>, Option<Seq<char>>))) -> bool {
        PropertiesFields::spec_wf(v)
    }

    proof fn lemma_roundtrip(v: (Seq<char>, (Seq<char>, Option<Seq<char>>)), rest: Seq<u8>) {
        PropertiesFields::lemma_roundtrip(v, rest);
    }
}

impl Model for GameProfile {
    type Abstract = (Seq<u8>, (Seq<char>, Seq<(Seq<char>, (Seq<char>, Option<Seq<char>>))>));

    open spec fn model(&self) -> (Seq<u8>, (Seq<char>, Seq<(Seq<char>, (Seq<char>, Option<Seq<char>>))>)) {
        (self.uuid.model(), (self.username.model(), self.properties.model()))
    }
}

impl Serialize for GameProfile {
    open spec fn spec_serialize(v: (Seq<u8>, (Seq<char>, Seq<(Seq<char>, (Seq<char>, Option<Seq<char>>))>))) -> Result<Seq<u8>, ser::Error> {
        ProfileFields::spec_serialize(v)
    }

    fn serialize(&self, writer: &mut Vec<u8>) -> (r: Result<(), ser::Error>) {
        serialize_triple(&self.uuid, &self.username, &self.properties, writer)
    }
}

impl Deserialize for GameProfile {
    open spec fn spec_accepts(input: Seq<u8>) -> bool {
        ProfileFields::spec_accepts(input)
    }

    open spec fn spec_deserialize(input: Seq<u8>) -> Result<((Seq<u8>, (Seq<char>, Seq<(Seq<char>, (Seq<char>, Option<Seq<char>>))>)), nat), de::Error> {
        ProfileFields::spec_deserialize(input)
    }

    fn deserialize(reader: &mut Reader) -> (r: Result<Self, de::Error>) {
        match ProfileFields::deserialize(reader) {
            Ok((uuid, (username, properties))) => Ok(GameProfile { uuid, username, properties }),
            Err(e) => Err(e),
        }
    }
}

impl Codec for GameProfile {
    open spec fn spec_wf(v: (Seq<u8>, (Seq<char>, Seq<(Seq<char>, (Seq<char>, Option<Seq<char>>))>))) -> bool {
        ProfileFields::spec_wf(v)
    }

    proof fn lemma_roundtrip(v: (Seq<u8>, (Seq<char>, Seq<(Seq<char>, (Seq<char>, Option<Seq<char>>))>)), rest: Seq<u8>) {
        ProfileFields::lemma_roundtrip(v, rest);
    }
}

} // verus!
