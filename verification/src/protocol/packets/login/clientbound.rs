use vstd::prelude::*;

use crate::protocol::data_types::game_profile::GameProfile;
use crate::protocol::data_types::proto_string::{ProtoString, DEFAULT_MAX_LEN};
use crate::protocol::ser_de::compound::serialize_pair;
use crate::protocol::ser_de::model::Model;
use crate::protocol::ser_de::ser::{self, Serialize};

verus! {

/// The reason the server gives for ending the login.
#[derive(Debug)]
pub struct LoginDisconnect {
    pub reason: ProtoString<DEFAULT_MAX_LEN>,
}

impl Model for LoginDisconnect {
    type Abstract = Seq<char>;

    open spec fn model(&self) -> Seq<char> {
        self.reason.model()
    }
}

impl Serialize for LoginDisconnect {
    open spec fn spec_serialize(v: Seq<char>) -> Result<Seq<u8>, ser::Error> {
        ProtoString::<DEFAULT_MAX_LEN>::spec_serialize(v)
    }

    fn serialize(&self, writer: &mut Vec<u8>) -> (r: Result<(), ser::Error>) {
        self.reason.serialize(writer)
    }
}

/// The profile that the server assigns at the end of login.
#[derive(Debug)]
pub struct LoginSuccess {
    pub profile: GameProfile,
}

impl Model for LoginSuccess {
    type Abstract = <GameProfile as Model>::Abstract;

    open spec fn model(&self) -> <GameProfile as Model>::Abstract {
        self.profile.model()
    }
}

impl Serialize for LoginSuccess {
    open spec fn spec_serialize(v: <GameProfile as Model>::Abstract) -> Result<Seq<u8>, ser::Error> {
        GameProfile::spec_serialize(v)
    }

    fn serialize(&self, writer: &mut Vec<u8>) -> (r: Result<(), ser::Error>) {
        self.profile.serialize(writer)
    }
}

/// A plugin request; it carries nothing.
#[derive(Debug)]
pub struct LoginPluginRequest {}

impl Model for LoginPluginRequest {
    type Abstract = ();

    open spec fn model(&self) -> () {
        ()
    }
}

impl Serialize for LoginPluginRequest {
    open spec fn spec_serialize(v: ()) -> Result<Seq<u8>, ser::Error> {
        Ok(Seq::empty())
    }

    fn serialize(&self, writer: &mut Vec<u8>) -> (r: Result<(), ser::Error>) {
        assert(writer@ =~= writer@ + Seq::<u8>::empty());
        Ok(())
    }
}

/// A cookie request; it carries nothing.
#[derive(Debug)]
pub struct CookieRequest {}

impl Model for CookieRequest {
    type Abstract = ();

    open spec fn model(&self) -> () {
        ()
    }
}

impl Serialize for CookieRequest {
    open spec fn spec_serialize(v: ()) -> Result<Seq<u8>, ser::Error> {
        Ok(Seq::empty())
    }

    fn serialize(&self, writer: &mut Vec<u8>) -> (r: Result<(), ser::Error>) {
        assert(writer@ =~= writer@ + Seq::<u8>::empty());
        Ok(())
    }
}

} // verus!
