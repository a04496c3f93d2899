use vstd::prelude::*;

use crate::protocol::data_types::prefixed_array::{accepts_seq, all_wf, de_seq, deserialize_n, lemma_seq_roundtrip, ser_seq, serialize_all};
use crate::protocol::ser_de::codec::Codec;
use crate::protocol::ser_de::de::{self, Deserialize};
use crate::protocol::ser_de::model::Model;
use crate::protocol::ser_de::reader::Reader;
use crate::protocol::ser_de::ser::{self, Serialize};

verus! {

/// `LENGTH` values written one after the other, with no length prefix.
#[derive(Debug, Clone, PartialEq, Eq, PartialOrd, Ord, Hash)]
pub struct Array<T, const LENGTH: usize>(pub [T; LENGTH]);

impl<T, const LENGTH: usize> Array<T, LENGTH> {
    pub fn into_inner(self) -> (r: [T; LENGTH])
        ensures
            r == self.0,
    {
        self.0
    }
}

impl<T: Model, const LENGTH: usize> Model for Array<T, LENGTH> {
    type Abstract = Seq<T::Abstract>;

    open spec fn model(&self) -> Seq<T::Abstract> {
        self.0@.map_values(|x: T| x.model())
    }
}

impl<T: Serialize, const LENGTH: usize> Serialize for Array<T, LENGTH> {
    open spec fn spec_serialize(v: Seq<T::Abstract>) -> Result<Seq<u8>, ser::Error> {
        ser_seq::<T>(v)
    }

    fn serialize(&self, writer: &mut Vec<u8>) -> (r: Result<(), ser::Error>) {
        let items = self.0.as_slice();
        serialize_all(items, writer)
    }
}

impl<T: Deserialize + Default + Copy, const LENGTH: usize> Deserialize for Array<T, LENGTH> {
    open spec fn spec_accepts(input: Seq<u8>) -> bool {
        accepts_seq::<T>(input, LENGTH as nat)
    }

    open spec fn spec_deserialize(input: Seq<u8>) -> Result<(Seq<T::Abstract>, nat), de::Error> {
        de_seq::<T>(input, LENGTH as nat)
    }

    fn deserialize(reader: &mut Reader) -> (r: Result<Self, de::Error>) {
        let values = match deserialize_n::<T>(reader, LENGTH) {
            Ok(v) => v,
            Err(e) => return Err(e),
        };
        proof {
            lemma_de_seq_len::<T>(old(reader)@, LENGTH as nat);
        }
        Ok(Array(array_from_values(values)))
    }
}

/// The values read for an array, in an array of the same length.
fn array_from_values<T: Copy + Default, const LENGTH: usize>(values: Vec<T>) -> (r: [T; LENGTH])
    requires
        values@.len() == LENGTH,
    ensures
        r@ == values@,
{
    let mut result: [T; LENGTH] = [T::default(); LENGTH];
    let mut i: usize = 0;
    while i < LENGTH
        invariant
            i <= LENGTH,
            values@.len() == LENGTH,
            result@.len() == LENGTH,
            forall|j: int| 0 <= j < i ==> result@[j] == values@[j],
        decreases LENGTH - i,
    {
        result[i] = values[i];
        i = i + 1;
    }
    assert(result@ =~= values@);
    result
}

/// Reading `count` values successfully gives `count` values.
proof fn lemma_de_seq_len<T: Deserialize>(input: Seq<u8>, count: nat)
    ensures
        de_seq::<T>(input, count) matches Ok((vs, n)) ==> vs.len() == count,
    decreases count,
{
    if count > 0 {
        match T::spec_deserialize(input) {
            Ok((v, n)) => lemma_de_seq_len::<T>(input.skip(n as int), (count - 1) as nat),
            Err(_) => {},
        }
    }
}

impl<T: Codec + Default + Copy, const LENGTH: usize> Codec for Array<T, LENGTH> {
    open spec fn spec_wf(v: Seq<T::Abstract>) -> bool {
        all_wf::<T>(v) && v.len() == LENGTH
    }

    proof fn lemma_roundtrip(v: Seq<T::Abstract>, rest: Seq<u8>) {
        lemma_seq_roundtrip::<T>(v, rest);
    }
}

} // verus!
