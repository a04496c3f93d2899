use vstd::prelude::*;

use crate::protocol::ser_de::model::Model;

verus! {

/// Errors that serialization reports.
#[derive(Debug, PartialEq, Eq)]
pub enum Error {
    TooLong { expected: usize, actual: usize, context: &'static str },
}

/// What `serialize` promises, given the specified outcome `spec`, the writer's
/// bytes `before` and `after` the call and the returned `r`: on success exactly
/// the specified bytes are appended; on failure the specified error is
/// returned and the writer has only grown.
pub open spec fn ser_post(
    spec: Result<Seq<u8>, Error>,
    before: Seq<u8>,
    r: Result<(), Error>,
    after: Seq<u8>,
) -> bool {
    match spec {
        Ok(bytes) => r is Ok && after == before + bytes,
        Err(e) => r == Err::<(), Error>(e) && before.is_prefix_of(after),
    }
}

/// A type that can be written to the wire.
pub trait Serialize: Model {
    /// The bytes that encode `v`, or the error reported for it.
    spec fn spec_serialize(v: Self::Abstract) -> Result<Seq<u8>, Error>;

    fn serialize(&self, writer: &mut Vec<u8>) -> (r: Result<(), Error>)
        ensures
            ser_post(Self::spec_serialize(self.model()), old(writer)@, r, final(writer)@),
    ;
}

} // verus!
