use vstd::prelude::*;

use crate::protocol::data_types::var_int::{lemma_varint_u32_roundtrip, varint_decode_u32, varint_encode_u32, VarInt};
use crate::protocol::ser_de::codec::Codec;
use crate::protocol::ser_de::de::{self, de_post, Deserialize};
use crate::protocol::ser_de::model::Model;
use crate::protocol::ser_de::reader::Reader;
use crate::protocol::ser_de::seq_facts::{lemma_skip_concat, lemma_skip_is_suffix, lemma_skip_skip, lemma_suffix_refl, lemma_suffix_trans};
use crate::protocol::ser_de::ser::{self, ser_post, Serialize};

verus! {

/// The encodings of the elements of `s`, one after the other, or the first
/// error that one of them reports.
pub open spec fn ser_seq<T: Serialize>(s: Seq<T::Abstract>) -> Result<Seq<u8>, ser::Error>
    decreases s.len(),
{
    if s.len() == 0 {
        Ok(Seq::empty())
    } else {
        match T::spec_serialize(s[0]) {
            Err(e) => Err(e),
            Ok(b) => match ser_seq::<T>(s.drop_first()) {
                Ok(r) => Ok(b + r),
                Err(e) => Err(e),
            },
        }
    }
}

/// `count` values read one after the other from the front of `input`, with
/// the number of bytes they take, or the first error.
pub open spec fn de_seq<T: Deserialize>(input: Seq<u8>, count: nat) -> Result<(Seq<T::Abstract>, nat), de::Error>
    decreases count,
{
    if count == 0 {
        Ok((Seq::empty(), 0))
    } else {
        match T::spec_deserialize(input) {
            Err(e) => Err(e),
            Ok((v, n)) => match de_seq::<T>(input.skip(n as int), (count - 1) as nat) {
                Ok((vs, m)) => Ok((seq![v] + vs, n + m)),
                Err(e) => Err(e),
            },
        }
    }
}

/// Reading `count` values from the front of `input` does not panic.
pub open spec fn accepts_seq<T: Deserialize>(input: Seq<u8>, count: nat) -> bool
    decreases count,
{
    count == 0 || (T::spec_accepts(input) && match T::spec_deserialize(input) {
        Ok((v, n)) => accepts_seq::<T>(input.skip(n as int), (count - 1) as nat),
        Err(_) => true,
    })
}

/// Every element of `s` satisfies the element type's well-formedness.
pub open spec fn all_wf<T: Codec>(s: Seq<T::Abstract>) -> bool {
    forall|i: int| 0 <= i < s.len() ==> T::spec_wf(#[trigger] s[i])
}

/// `acc` followed by the outcome `r` of writing the rest.
pub open spec fn after_written(acc: Seq<u8>, r: Result<Seq<u8>, ser::Error>) -> Result<Seq<u8>, ser::Error> {
    match r {
        Ok(b) => Ok(acc + b),
        Err(e) => Err(e),
    }
}

/// `vals` and `used` bytes followed by the outcome `r` of reading the rest.
pub open spec fn after_read<A>(vals: Seq<A>, used: nat, r: Result<(Seq<A>, nat), de::Error>) -> Result<(Seq<A>, nat), de::Error> {
    match r {
        Ok((vs, m)) => Ok((vals + vs, used + m)),
        Err(e) => Err(e),
    }
}

/// Writes the elements of `items` one after the other.
pub fn serialize_all<T: Serialize>(items: &[T], writer: &mut Vec<u8>) -> (r: Result<(), ser::Error>)
    ensures
        ser_post(ser_seq::<T>(items@.map_values(|x: T| x.model())), old(writer)@, r, final(writer)@),
{
    let ghost m = items@.map_values(|x: T| x.model());
    let ghost start = writer@;
    let mut i: usize = 0;
    proof {
        assert(m.skip(0) =~= m);
        assert(writer@.skip(start.len() as int) =~= Seq::<u8>::empty());
        match ser_seq::<T>(m) {
            Ok(b) => assert(Seq::<u8>::empty() + b =~= b),
            Err(_) => {},
        }
        assert(start.is_prefix_of(writer@));
    }
    while i < items.len()
        invariant
            i <= items.len(),
            m == items@.map_values(|x: T| x.model()),
            start == old(writer)@,
            start.is_prefix_of(writer@),
            ser_seq::<T>(m) == after_written(writer@.skip(start.len() as int), ser_seq::<T>(m.skip(i as int))),
        decreases items.len() - i,
    {
        let ghost before = writer@;
        let ghost tail = m.skip(i as int);
        assert(tail[0] == items@[i as int].model());
        assert(tail.drop_first() =~= m.skip(i + 1));
        let r = items[i].serialize(writer);
        match r {
            Ok(()) => {
                let ghost b = T::spec_serialize(tail[0])->Ok_0;
                assert(writer@.skip(start.len() as int) =~= before.skip(start.len() as int) + b);
                proof {
                    match ser_seq::<T>(m.skip(i + 1)) {
                        Ok(x) => assert(before.skip(start.len() as int) + b + x =~= before.skip(start.len() as int) + (b + x)),
                        Err(_) => {},
                    }
                }
                assert(start.is_prefix_of(writer@)) by {
                    assert forall|j: int| 0 <= j < start.len() implies start[j] == writer@[j] by {
                        assert(start[j] == before[j]);
                    }
                }
                i = i + 1;
            },
            Err(e) => {
                assert(start.is_prefix_of(writer@)) by {
                    assert forall|j: int| 0 <= j < start.len() implies start[j] == writer@[j] by {
                        assert(start[j] == before[j]);
                    }
                }
                return Err(e);
            },
        }
    }
    assert(m.skip(i as int) =~= Seq::<T::Abstract>::empty());
    assert(writer@ =~= start + writer@.skip(start.len() as int));
    Ok(())
}

/// Reads `count` values one after the other.
pub fn deserialize_n<T: Deserialize>(reader: &mut Reader, count: usize) -> (r: Result<Vec<T>, de::Error>)
    requires
        accepts_seq::<T>(old(reader)@, count as nat),
    ensures
        de_post(de_seq::<T>(old(reader)@, count as nat), old(reader)@, r, final(reader)@),
{
    let ghost input = reader@;
    let mut result: Vec<T> = Vec::with_capacity(count);
    let mut i: usize = 0;
    let ghost mut used: nat = 0;
    proof {
        assert(input.skip(0) =~= input);
    }
    while i < count
        invariant
            input == old(reader)@,
            i <= count,
            used <= input.len(),
            reader@ == input.skip(used as int),
            accepts_seq::<T>(reader@, (count - i) as nat),
            de_seq::<T>(input, count as nat) == after_read(result.model(), used, de_seq::<T>(reader@, (count - i) as nat)),
        decreases count - i,
    {
        let ghost before = reader@;
        match T::deserialize(reader) {
            Ok(v) => {
                let ghost n = T::spec_deserialize(before)->Ok_0.1;
                proof {
                    lemma_skip_skip(input, used as int, n as int);
                }
                let ghost old_model = result.model();
                result.push(v);
                assert(result.model() =~= old_model + seq![v.model()]);
                proof {
                    used = used + n;
                    match de_seq::<T>(reader@, (count - i - 1) as nat) {
                        Ok((vs, mm)) => {
                            assert(old_model + (seq![v.model()] + vs) =~= old_model + seq![v.model()] + vs);
                        },
                        Err(_) => {},
                    }
                }
                i = i + 1;
            },
            Err(e) => {
                proof {
                    lemma_skip_is_suffix(input, used as int);
                    lemma_suffix_trans(reader@, before, input);
                }
                return Err(e);
            },
        }
    }
    assert(result.model() + Seq::<T::Abstract>::empty() =~= result.model());
    Ok(result)
}

impl<T: Serialize> Serialize for Vec<T> {
    open spec fn spec_serialize(v: Seq<T::Abstract>) -> Result<Seq<u8>, ser::Error> {
        match ser_seq::<T>(v) {
            Ok(b) => Ok(varint_encode_u32((v.len() as i32) as u32) + b),
            Err(e) => Err(e),
        }
    }

    fn serialize(&self, writer: &mut Vec<u8>) -> (r: Result<(), ser::Error>) {
        let _ = VarInt(self.len() as i32).serialize(writer);
        let ghost mid = writer@;
        let items = self.as_slice();
        let r = serialize_all(items, writer);
        proof {
            assert(items@ == self@);
            match r {
                Ok(_) => {
                    assert(writer@ =~= old(writer)@ + (varint_encode_u32((self@.len() as i32) as u32) + ser_seq::<T>(self.model())->Ok_0));
                },
                Err(_) => {
                    assert forall|j: int| 0 <= j < old(writer)@.len() implies old(writer)@[j] == writer@[j] by {
                        assert(old(writer)@[j] == mid[j]);
                    }
                },
            }
        }
        r
    }
}

impl<T: Deserialize> Deserialize for Vec<T> {
    open spec fn spec_accepts(input: Seq<u8>) -> bool {
        match varint_decode_u32(input) {
            Ok((u, n)) => (u as i32) >= 0 && accepts_seq::<T>(input.skip(n as int), (u as i32) as nat),
            Err(_) => true,
        }
    }

    open spec fn spec_deserialize(input: Seq<u8>) -> Result<(Seq<T::Abstract>, nat), de::Error> {
        match varint_decode_u32(input) {
            Err(e) => Err(e),
            Ok((u, n)) => match de_seq::<T>(input.skip(n as int), (u as i32) as nat) {
                Ok((vs, m)) => Ok((vs, n + m)),
                Err(e) => Err(e),
            },
        }
    }

    fn deserialize(reader: &mut Reader) -> (r: Result<Self, de::Error>) {
        let length = match VarInt::deserialize(reader) {
            Ok(v) => v.0 as usize,
            Err(e) => return Err(e),
        };
        let ghost mid = reader@;
        let r = deserialize_n::<T>(reader, length);
        proof {
            let n = varint_decode_u32(old(reader)@)->Ok_0.1;
            match r {
                Ok(_) => {
                    lemma_skip_skip(old(reader)@, n as int, de_seq::<T>(mid, length as nat)->Ok_0.1 as int);
                },
                Err(_) => {
                    lemma_skip_is_suffix(old(reader)@, n as int);
                    lemma_suffix_trans(reader@, mid, old(reader)@);
                },
            }
        }
        r
    }
}

} // verus!

verus! {

/// Reading back the concatenated encodings of well-formed values gives the
/// values, consumes exactly the encodings, and does not panic.
pub proof fn lemma_seq_roundtrip<T: Codec>(s: Seq<T::Abstract>, rest: Seq<u8>)
    requires
        all_wf::<T>(s),
        ser_seq::<T>(s) is Ok,
    ensures
        ser_seq::<T>(s) matches Ok(b) && accepts_seq::<T>(b + rest, s.len())
            && de_seq::<T>(b + rest, s.len()) == Ok::<(Seq<T::Abstract>, nat), de::Error>((s, b.len())),
    decreases s.len(),
{
    if s.len() > 0 {
        let b0 = T::spec_serialize(s[0])->Ok_0;
        let tail = s.drop_first();
        let bt = ser_seq::<T>(tail)->Ok_0;
        assert(all_wf::<T>(tail)) by {
            assert forall|i: int| 0 <= i < tail.len() implies T::spec_wf(#[trigger] tail[i]) by {
                assert(tail[i] == s[i + 1]);
            }
        }
        assert(T::spec_wf(s[0]));
        T::lemma_roundtrip(s[0], bt + rest);
        lemma_seq_roundtrip::<T>(tail, rest);
        lemma_skip_concat(b0, bt, rest);
        assert(seq![s[0]] + tail =~= s);
        assert(ser_seq::<T>(s) == Ok::<Seq<u8>, ser::Error>(b0 + bt));
        assert(T::spec_deserialize(b0 + bt + rest) == Ok::<(T::Abstract, nat), de::Error>((s[0], b0.len())));
        assert(de_seq::<T>(b0 + bt + rest, s.len()) == Ok::<(Seq<T::Abstract>, nat), de::Error>((seq![s[0]] + tail, b0.len() + bt.len())));
    } else {
        assert(s =~= Seq::<T::Abstract>::empty());
        assert(Seq::<u8>::empty() + rest =~= rest);
    }
}

impl<T: Codec> Codec for Vec<T> {
    open spec fn spec_wf(v: Seq<T::Abstract>) -> bool {
        all_wf::<T>(v) && v.len() <= i32::MAX
    }

    proof fn lemma_roundtrip(v: Seq<T::Abstract>, rest: Seq<u8>) {
        let b = ser_seq::<T>(v)->Ok_0;
        let u = (v.len() as i32) as u32;
        let e = varint_encode_u32(u);
        lemma_varint_u32_roundtrip(u, b + rest);
        lemma_seq_roundtrip::<T>(v, rest);
        lemma_skip_concat(e, b, rest);
        let l = v.len() as i32;
        assert(l >= 0);
        assert((u as i32) == l) by (bit_vector)
            requires u == l as u32;
    }
}

} // verus!
