use vstd::prelude::*;

use crate::protocol::ser_de::de::Deserialize;
use crate::protocol::ser_de::ser::Serialize;

verus! {

/// A type whose wire encoding reads back as the value that was written.
pub trait Codec: Serialize + Deserialize {
    /// The values that the encoding carries back unchanged.
    spec fn spec_wf(v: Self::Abstract) -> bool;

    /// Reading the bytes written for `v`, whatever follows them, gives `v`
    /// back, consumes exactly those bytes, and does not panic.
    proof fn lemma_roundtrip(v: Self::Abstract, rest: Seq<u8>)
        requires
            Self::spec_wf(v),
            Self::spec_serialize(v) is Ok,
        ensures
            Self::spec_serialize(v) matches Ok(bytes) && Self::spec_accepts(bytes + rest)
                && Self::spec_deserialize(bytes + rest) == Ok::<(Self::Abstract, nat), crate::protocol::ser_de::de::Error>((v, bytes.len())),
    ;
}

} // verus!
