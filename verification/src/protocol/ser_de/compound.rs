use vstd::prelude::*;

use crate::protocol::ser_de::codec::Codec;
use crate::protocol::ser_de::de::{self, de_post, Deserialize};
use crate::protocol::ser_de::model::Model;
use crate::protocol::ser_de::reader::Reader;
use crate::protocol::ser_de::seq_facts::{lemma_skip_concat, lemma_skip_is_suffix, lemma_skip_skip, lemma_suffix_trans};
use crate::protocol::ser_de::ser::{self, ser_post, Serialize};

verus! {

// Records are written as their fields one after the other; nested pairs
// carry records with more than two fields.

/// The encoding of `a` followed by that of `b`, or the first error.
pub open spec fn ser_pair<A: Serialize, B: Serialize>(a: A::Abstract, b: B::Abstract) -> Result<Seq<u8>, ser::Error> {
    match A::spec_serialize(a) {
        Err(e) => Err(e),
        Ok(x) => match B::spec_serialize(b) {
            Ok(y) => Ok(x + y),
            Err(e) => Err(e),
        },
    }
}

/// An `A` and then a `B` read from the front of `input`, or the first error.
pub open spec fn de_pair<A: Deserialize, B: Deserialize>(input: Seq<u8>) -> Result<((A::Abstract, B::Abstract), nat), de::Error> {
    match A::spec_deserialize(input) {
        Err(e) => Err(e),
        Ok((a, n)) => match B::spec_deserialize(input.skip(n as int)) {
            Ok((b, m)) => Ok(((a, b), n + m)),
            Err(e) => Err(e),
        },
    }
}

/// Reading an `A` and then a `B` from the front of `input` does not panic.
pub open spec fn accepts_pair<A: Deserialize, B: Deserialize>(input: Seq<u8>) -> bool {
    A::spec_accepts(input) && match A::spec_deserialize(input) {
        Ok((a, n)) => B::spec_accepts(input.skip(n as int)),
        Err(_) => true,
    }
}

impl Model for () {
    type Abstract = ();

    open spec fn model(&self) -> () {
        ()
    }
}

impl Serialize for () {
    open spec fn spec_serialize(v: ()) -> Result<Seq<u8>, ser::Error> {
        Ok(Seq::empty())
    }

    fn serialize(&self, writer: &mut Vec<u8>) -> (r: Result<(), ser::Error>) {
        assert(writer@ =~= writer@ + Seq::<u8>::empty());
        Ok(())
    }
}

impl Deserialize for () {
    open spec fn spec_accepts(input: Seq<u8>) -> bool {
        true
    }

    open spec fn spec_deserialize(input: Seq<u8>) -> Result<((), nat), de::Error> {
        Ok(((), 0))
    }

    fn deserialize(reader: &mut Reader) -> (r: Result<Self, de::Error>) {
        assert(reader@.skip(0) =~= reader@);
        Ok(())
    }
}

impl Codec for () {
    open spec fn spec_wf(v: ()) -> bool {
        true
    }

    proof fn lemma_roundtrip(v: (), rest: Seq<u8>) {
        assert(Seq::<u8>::empty() + rest =~= rest);
    }
}

impl<A: Model, B: Model> Model for (A, B) {
    type Abstract = (A::Abstract, B::Abstract);

    open spec fn model(&self) -> (A::Abstract, B::Abstract) {
        (self.0.model(), self.1.model())
    }
}

/// Writes `a` and then `b`.
pub fn serialize_pair<A: Serialize, B: Serialize>(a: &A, b: &B, writer: &mut Vec<u8>) -> (r: Result<(), ser::Error>)
    ensures
        ser_post(ser_pair::<A, B>(a.model(), b.model()), old(writer)@, r, final(writer)@),
{
    match a.serialize(writer) {
        Err(e) => Err(e),
        Ok(()) => {
            let ghost mid = writer@;
            let r = b.serialize(writer);
            proof {
                match r {
                    Ok(_) => {
                        assert(writer@ =~= old(writer)@ + (A::spec_serialize(a.model())->Ok_0 + B::spec_serialize(b.model())->Ok_0));
                    },
                    Err(_) => {
                        assert forall|j: int| 0 <= j < old(writer)@.len() implies old(writer)@[j] == writer@[j] by {
                            assert(old(writer)@[j] == mid[j]);
                        }
                    },
                }
            }
            r
        },
    }
}

/// Writes `a`, then `b`, then `c`.
pub fn serialize_triple<A: Serialize, B: Serialize, C: Serialize>(a: &A, b: &B, c: &C, writer: &mut Vec<u8>) -> (r: Result<(), ser::Error>)
    ensures
        ser_post(<(A, (B, C))>::spec_serialize((a.model(), (b.model(), c.model()))), old(writer)@, r, final(writer)@),
{
    match a.serialize(writer) {
        Err(e) => Err(e),
        Ok(()) => {
            let ghost mid = writer@;
            let r = serialize_pair(b, c, writer);
            proof {
                match r {
                    Ok(_) => {
                        assert(writer@ =~= old(writer)@ + (A::spec_serialize(a.model())->Ok_0 + ser_pair::<B, C>(b.model(), c.model())->Ok_0));
                    },
                    Err(_) => {
                        assert forall|j: int| 0 <= j < old(writer)@.len() implies old(writer)@[j] == writer@[j] by {
                            assert(old(writer)@[j] == mid[j]);
                        }
                    },
                }
            }
            r
        },
    }
}

impl<A: Serialize, B: Serialize> Serialize for (A, B) {
    open spec fn spec_serialize(v: (A::Abstract, B::Abstract)) -> Result<Seq<u8>, ser::Error> {
        ser_pair::<A, B>(v.0, v.1)
    }

    fn serialize(&self, writer: &mut Vec<u8>) -> (r: Result<(), ser::Error>) {
        serialize_pair(&self.0, &self.1, writer)
    }
}

impl<A: Deserialize, B: Deserialize> Deserialize for (A, B) {
    open spec fn spec_accepts(input: Seq<u8>) -> bool {
        accepts_pair::<A, B>(input)
    }

    open spec fn spec_deserialize(input: Seq<u8>) -> Result<((A::Abstract, B::Abstract), nat), de::Error> {
        de_pair::<A, B>(input)
    }

    fn deserialize(reader: &mut Reader) -> (r: Result<Self, de::Error>) {
        let a = match A::deserialize(reader) {
            Ok(a) => a,
            Err(e) => return Err(e),
        };
        let ghost mid = reader@;
        let ghost n = A::spec_deserialize(old(reader)@)->Ok_0.1;
        match B::deserialize(reader) {
            Ok(b) => {
                proof {
                    lemma_skip_skip(old(reader)@, n as int, B::spec_deserialize(mid)->Ok_0.1 as int);
                }
                Ok((a, b))
            },
            Err(e) => {
                proof {
                    lemma_skip_is_suffix(old(reader)@, n as int);
                    lemma_suffix_trans(reader@, mid, old(reader)@);
                }
                Err(e)
            },
        }
    }
}

impl<A: Codec, B: Codec> Codec for (A, B) {
    open spec fn spec_wf(v: (A::Abstract, B::Abstract)) -> bool {
        A::spec_wf(v.0) && B::spec_wf(v.1)
    }

    proof fn lemma_roundtrip(v: (A::Abstract, B::Abstract), rest: Seq<u8>) {
        let x = A::spec_serialize(v.0)->Ok_0;
        let y = B::spec_serialize(v.1)->Ok_0;
        A::lemma_roundtrip(v.0, y + rest);
        B::lemma_roundtrip(v.1, rest);
        lemma_skip_concat(x, y, rest);
    }
}

} // verus!
