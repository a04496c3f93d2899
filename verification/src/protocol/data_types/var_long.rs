use vstd::prelude::*;

use crate::protocol::data_types::var_int::VARINT_TOO_LARGE;
use crate::protocol::ser_de::codec::Codec;
use crate::protocol::ser_de::de::{self, de_post, Deserialize, IoError};
use crate::protocol::ser_de::model::Model;
use crate::protocol::ser_de::reader::Reader;
use crate::protocol::ser_de::ser::{self, ser_post, Serialize};

verus! {

/// The LEB128 encoding of `u`: seven bits per byte, least significant group
/// first, with the high bit set on every byte but the last.
pub open spec fn varint_encode_u64(u: u64) -> Seq<u8>
    decreases u,
{
    if u < 0x80 {
        seq![u as u8]
    } else {
        proof {
            assert(u >= 0x80 ==> u >> 7u64 < u) by (bit_vector);
        }
        seq![((u & 0x7f) | 0x80) as u8] + varint_encode_u64(u >> 7u64)
    }
}

/// Decoding of a 64-bit variable-length integer from byte `i` of `s` on,
/// with `acc` holding the bits of the bytes before it. At most ten bytes are
/// read.
pub open spec fn varint_decode_u64_from(s: Seq<u8>, i: nat, acc: u64) -> Result<(u64, nat), de::Error>
    decreases 10 - i,
{
    if i >= 10 {
        Err(de::Error::Message(VARINT_TOO_LARGE))
    } else if i >= s.len() {
        Err(de::Error::Io(IoError::UnexpectedEof))
    } else {
        let b = s[i as int];
        let acc2 = acc | (((b & 0x7f) as u64) << ((7 * i) as u64));
        if b & 0x80 == 0 {
            Ok((acc2, i + 1))
        } else {
            varint_decode_u64_from(s, i + 1, acc2)
        }
    }
}

/// The 64-bit variable-length integer at the front of `s` and its length in
/// bytes.
pub open spec fn varint_decode_u64(s: Seq<u8>) -> Result<(u64, nat), de::Error> {
    varint_decode_u64_from(s, 0, 0)
}

proof fn lemma_decode_encoded_u64(u: u64, i: nat, s: Seq<u8>)
    requires
        i <= 9,
        i + varint_encode_u64(u >> ((7 * i) as u64)).len() <= s.len(),
        s.subrange(i as int, (i + varint_encode_u64(u >> ((7 * i) as u64)).len()) as int)
            == varint_encode_u64(u >> ((7 * i) as u64)),
    ensures
        varint_decode_u64_from(s, i, u & !(0xffff_ffff_ffff_ffffu64 << ((7 * i) as u64)))
            == Ok::<(u64, nat), de::Error>((u, i + varint_encode_u64(u >> ((7 * i) as u64)).len())),
    decreases 9 - i,
{
    let k = (7 * i) as u64;
    let w = u >> k;
    let e = varint_encode_u64(w);
    let acc = u & !(0xffff_ffff_ffff_ffffu64 << k);
    assert(s[i as int] == e[0]);
    assert(k <= 63);
    if w < 0x80 {
        let b = w as u8;
        assert(e[0] == b);
        assert((b & 0x80) == 0 && (acc | (((b & 0x7f) as u64) << k)) == u) by (bit_vector)
            requires
                k <= 63,
                w == u >> k,
                w < 0x80,
                b == w as u8,
                acc == u & !(0xffff_ffff_ffff_ffffu64 << k);
    } else {
        let b = ((w & 0x7f) | 0x80) as u8;
        assert(e[0] == b);
        let k2 = (7 * (i + 1)) as u64;
        assert(k2 == k + 7);
        assert(k <= 56) by (bit_vector)
            requires
                w == u >> k,
                w >= 0x80,
                k <= 63;
        assert({
            &&& (b & 0x80) != 0
            &&& (acc | (((b & 0x7f) as u64) << k)) == u & !(0xffff_ffff_ffff_ffffu64 << k2)
            &&& w >> 7u64 == u >> k2
        }) by (bit_vector)
            requires
                k <= 56,
                k2 == k + 7,
                w == u >> k,
                b == ((w & 0x7f) | 0x80) as u8,
                acc == u & !(0xffff_ffff_ffff_ffffu64 << k);
        let e2 = varint_encode_u64(w >> 7u64);
        assert(e == seq![b] + e2);
        assert(s.subrange((i + 1) as int, (i + 1 + e2.len()) as int) =~= e2) by {
            assert forall|j: int| 0 <= j < e2.len() implies s.subrange((i + 1) as int, (i + 1 + e2.len()) as int)[j] == e2[j] by {
                assert(s.subrange(i as int, (i + e.len()) as int)[j + 1] == e[j + 1]);
            }
        }
        assert(u >> ((7 * (i + 1)) as u64) == w >> 7u64);
        lemma_decode_encoded_u64(u, i + 1, s);
    }
}

/// Decoding the encoding of `u`, followed by any bytes, gives `u` back and
/// consumes exactly the encoding.
pub proof fn lemma_varint_u64_roundtrip(u: u64, rest: Seq<u8>)
    ensures
        varint_decode_u64(varint_encode_u64(u) + rest)
            == Ok::<(u64, nat), de::Error>((u, varint_encode_u64(u).len())),
{
    let e = varint_encode_u64(u);
    let s = e + rest;
    assert(s.subrange(0, e.len() as int) =~= e);
    assert(u >> 0u64 == u) by (bit_vector);
    assert(u & !(0xffff_ffff_ffff_ffffu64 << 0u64) == 0) by (bit_vector);
    lemma_decode_encoded_u64(u, 0, s);
}

/// A 64-bit signed integer in the protocol's variable-length encoding.
#[derive(Debug, PartialEq, Eq, PartialOrd, Ord, Clone, Copy)]
pub struct VarLong(pub i64);

impl Model for VarLong {
    type Abstract = i64;

    open spec fn model(&self) -> i64 {
        self.0
    }
}

impl Serialize for VarLong {
    open spec fn spec_serialize(v: i64) -> Result<Seq<u8>, ser::Error> {
        Ok(varint_encode_u64(v as u64))
    }

    fn serialize(&self, writer: &mut Vec<u8>) -> (r: Result<(), ser::Error>) {
        let ghost start = writer@;
        let ghost whole = varint_encode_u64(self.0 as u64);
        let mut value: u64 = self.0 as u64;
        while value >= 0x80
            invariant
                start + whole == writer@ + varint_encode_u64(value),
            decreases value,
        {
            let byte = ((value & 0x7f) | 0x80) as u8;
            let ghost before = writer@;
            let ghost rest = varint_encode_u64(value >> 7u64);
            assert(varint_encode_u64(value) == seq![byte] + rest);
            writer.push(byte);
            assert(before + (seq![byte] + rest) =~= writer@ + rest);
            assert(value >= 0x80 ==> value >> 7u64 < value) by (bit_vector);
            value = value >> 7u64;
        }
        writer.push(value as u8);
        assert(varint_encode_u64(value) == seq![value as u8]);
        assert(writer@ =~= start + whole);
        assert(start == old(writer)@);
        assert(Self::spec_serialize(self.model()) == Ok::<Seq<u8>, ser::Error>(whole));
        Ok(())
    }
}

impl Deserialize for VarLong {
    open spec fn spec_accepts(input: Seq<u8>) -> bool {
        true
    }

    open spec fn spec_deserialize(input: Seq<u8>) -> Result<(i64, nat), de::Error> {
        match varint_decode_u64(input) {
            Ok((u, n)) => Ok((u as i64, n)),
            Err(e) => Err(e),
        }
    }

    fn deserialize(reader: &mut Reader) -> (r: Result<Self, de::Error>) {
        let ghost input = reader@;
        let mut value: u64 = 0;
        let mut i: usize = 0;
        while i < 10
            invariant
                input == old(reader)@,
                i <= 10,
                i <= input.len(),
                reader@ == input.skip(i as int),
                varint_decode_u64(input) == varint_decode_u64_from(input, i as nat, value),
            decreases 10 - i,
        {
            let b = match reader.read_byte() {
                Some(b) => b,
                None => {
                    assert(varint_decode_u64_from(input, i as nat, value) == Err::<(u64, nat), de::Error>(de::Error::Io(IoError::UnexpectedEof)));
                    assert(input.skip(i as int).len() == 0);
                    assert(input.skip(i as int).is_suffix_of(input));
                    assert(Self::spec_deserialize(input) == Err::<(i64, nat), de::Error>(de::Error::Io(IoError::UnexpectedEof)));
                    return Err(de::Error::Io(IoError::UnexpectedEof));
                },
            };
            assert(b == input[i as int]);
            let ghost old_value = value;
            let ghost old_i = i;
            value = value | (((b & 0x7f) as u64) << ((7 * i) as u64));
            assert(varint_decode_u64_from(input, old_i as nat, old_value) == if b & 0x80 == 0 {
                Ok((value, (old_i + 1) as nat))
            } else {
                varint_decode_u64_from(input, (old_i + 1) as nat, value)
            });
            i = i + 1;
            assert(reader@ =~= input.skip(i as int));
            if b & 0x80 == 0 {
                let r = VarLong(value as i64);
                assert(varint_decode_u64(input) == Ok::<(u64, nat), de::Error>((value, i as nat)));
                assert(Self::spec_deserialize(input) == Ok::<(i64, nat), de::Error>((value as i64, i as nat)));
                assert(r.model() == value as i64);
                return Ok(r);
            }
        }
        assert(reader@.is_suffix_of(input));
        assert(Self::spec_deserialize(input) == Err::<(i64, nat), de::Error>(de::Error::Message(VARINT_TOO_LARGE)));
        Err(de::Error::Message(VARINT_TOO_LARGE))
    }
}

impl Codec for VarLong {
    open spec fn spec_wf(v: i64) -> bool {
        true
    }

    proof fn lemma_roundtrip(v: i64, rest: Seq<u8>) {
        lemma_varint_u64_roundtrip(v as u64, rest);
        let u = v as u64;
        assert((u as i64) == v) by (bit_vector)
            requires u == v as u64;
    }
}

} // verus!
