use vstd::prelude::*;

use crate::protocol::ser_de::model::Model;
use crate::protocol::ser_de::reader::Reader;

verus! {

/// The ways in which reading from an in-memory buffer can fail.
#[derive(Debug, Clone, Copy, PartialEq, Eq)]
pub enum IoError {
    /// The buffer ended before the requested number of bytes.
    UnexpectedEof,
}

/// Errors that deserialization reports.
#[derive(Debug, PartialEq, Eq)]
pub enum Error {
    Message(&'static str),
    TooFewBytes { expected: usize, actual: usize },
    Syntax,
    Unsupported(&'static str),
    Io(IoError),
    FromUtf8Error,
    TooLong { expected: usize, actual: usize, context: &'static str },
}

/// What `deserialize` promises, given the specified outcome `spec` on the bytes
/// `before` that the reader held, the returned `r` and the bytes `after` that
/// are left: on success exactly the decoded bytes are consumed; on failure the
/// specified error is returned and the reader has only moved forward.
pub open spec fn de_post<T: Model>(
    spec: Result<(T::Abstract, nat), Error>,
    before: Seq<u8>,
    r: Result<T, Error>,
    after: Seq<u8>,
) -> bool {
    match spec {
        Ok((v, n)) => {
            &&& r matches Ok(x) && x.model() == v
            &&& n <= before.len()
            &&& after == before.skip(n as int)
        },
        Err(e) => {
            &&& r == Err::<T, Error>(e)
            &&& after.is_suffix_of(before)
        },
    }
}

/// A type that can be read from the wire.
pub trait Deserialize: Model + Sized {
    /// Inputs on which reading does not panic.
    spec fn spec_accepts(input: Seq<u8>) -> bool;

    /// The value read from the front of `input` and the number of bytes it
    /// takes, or the error reported.
    spec fn spec_deserialize(input: Seq<u8>) -> Result<(Self::Abstract, nat), Error>;

    fn deserialize(reader: &mut Reader) -> (r: Result<Self, Error>)
        requires
            Self::spec_accepts(old(reader)@),
        ensures
            de_post(Self::spec_deserialize(old(reader)@), old(reader)@, r, final(reader)@),
    ;
}

} // verus!
