use vstd::prelude::*;

use crate::protocol::ser_de::de::{self, de_post, Deserialize, IoError};
use crate::protocol::ser_de::model::Model;
use crate::protocol::ser_de::reader::Reader;
use crate::protocol::ser_de::ser::{self, ser_post, Serialize};

verus! {

/// The message reported when a variable-length integer runs past its longest
/// encoding.
pub const VARINT_TOO_LARGE: &'static str = "VarInt incomplete or too large";

/// The LEB128 encoding of `u`: seven bits per byte, least significant group
/// first, with the high bit set on every byte but the last.
pub open spec fn varint_encode_u32(u: u32) -> Seq<u8>
    decreases u,
{
    if u < 0x80 {
        seq![u as u8]
    } else {
        proof {
            assert(u >= 0x80 ==> u >> 7u32 < u) by (bit_vector);
        }
        seq![((u & 0x7f) | 0x80) as u8] + varint_encode_u32(u >> 7u32)
    }
}

/// Decoding of a 32-bit variable-length integer from byte `i` of `s` on,
/// with `acc` holding the bits of the bytes before it. At most five bytes
/// are read.
pub open spec fn varint_decode_u32_from(s: Seq<u8>, i: nat, acc: u32) -> Result<(u32, nat), de::Error>
    decreases 5 - i,
{
    if i >= 5 {
        Err(de::Error::Message(VARINT_TOO_LARGE))
    } else if i >= s.len() {
        Err(de::Error::Io(IoError::UnexpectedEof))
    } else {
        let b = s[i as int];
        let acc2 = acc | (((b & 0x7f) as u32) << ((7 * i) as u32));
        if b & 0x80 == 0 {
            Ok((acc2, i + 1))
        } else {
            varint_decode_u32_from(s, i + 1, acc2)
        }
    }
}

/// The 32-bit variable-length integer at the front of `s` and its length in
/// bytes.
pub open spec fn varint_decode_u32(s: Seq<u8>) -> Result<(u32, nat), de::Error> {
    varint_decode_u32_from(s, 0, 0)
}

proof fn lemma_decode_encoded_u32(u: u32, i: nat, s: Seq<u8>)
    requires
        i <= 4,
        i + varint_encode_u32(u >> ((7 * i) as u32)).len() <= s.len(),
        s.subrange(i as int, (i + varint_encode_u32(u >> ((7 * i) as u32)).len()) as int)
            == varint_encode_u32(u >> ((7 * i) as u32)),
    ensures
        varint_decode_u32_from(s, i, u & !(0xffff_ffffu32 << ((7 * i) as u32)))
            == Ok::<(u32, nat), de::Error>((u, i + varint_encode_u32(u >> ((7 * i) as u32)).len())),
    decreases 4 - i,
{
    let k = (7 * i) as u32;
    let w = u >> k;
    let e = varint_encode_u32(w);
    let acc = u & !(0xffff_ffffu32 << k);
    assert(s[i as int] == e[0]);
    assert(k <= 28);
    if w < 0x80 {
        let b = w as u8;
        assert(e[0] == b);
        assert((b & 0x80) == 0 && (acc | (((b & 0x7f) as u32) << k)) == u) by (bit_vector)
            requires
                k <= 28,
                w == u >> k,
                w < 0x80,
                b == w as u8,
                acc == u & !(0xffff_ffffu32 << k);
    } else {
        let b = ((w & 0x7f) | 0x80) as u8;
        assert(e[0] == b);
        let k2 = (7 * (i + 1)) as u32;
        assert(k2 == k + 7);
        assert(k <= 24) by (bit_vector)
            requires
                w == u >> k,
                w >= 0x80,
                k <= 28;
        assert({
            &&& (b & 0x80) != 0
            &&& (acc | (((b & 0x7f) as u32) << k)) == u & !(0xffff_ffffu32 << k2)
            &&& w >> 7u32 == u >> k2
        }) by (bit_vector)
            requires
                k <= 24,
                k2 == k + 7,
                w == u >> k,
                b == ((w & 0x7f) | 0x80) as u8,
                acc == u & !(0xffff_ffffu32 << k);
        let e2 = varint_encode_u32(w >> 7u32);
        assert(e == seq![b] + e2);
        assert(s.subrange((i + 1) as int, (i + 1 + e2.len()) as int) =~= e2) by {
            assert forall|j: int| 0 <= j < e2.len() implies s.subrange((i + 1) as int, (i + 1 + e2.len()) as int)[j] == e2[j] by {
                assert(s.subrange(i as int, (i + e.len()) as int)[j + 1] == e[j + 1]);
            }
        }
        assert(u >> ((7 * (i + 1)) as u32) == w >> 7u32);
        lemma_decode_encoded_u32(u, i + 1, s);
    }
}

/// Decoding the encoding of `u`, followed by any bytes, gives `u` back and
/// consumes exactly the encoding.
pub proof fn lemma_varint_u32_roundtrip(u: u32, rest: Seq<u8>)
    ensures
        varint_decode_u32(varint_encode_u32(u) + rest)
            == Ok::<(u32, nat), de::Error>((u, varint_encode_u32(u).len())),
{
    let e = varint_encode_u32(u);
    let s = e + rest;
    assert(s.subrange(0, e.len() as int) =~= e);
    assert(u >> 0u32 == u) by (bit_vector);
    assert(u & !(0xffff_ffffu32 << 0u32) == 0) by (bit_vector);
    lemma_decode_encoded_u32(u, 0, s);
}

proof fn lemma_decode_prefix_u32(u: u32, i: nat, s: Seq<u8>, acc: u32)
    requires
        i <= 4,
        i <= s.len() < i + varint_encode_u32(u >> ((7 * i) as u32)).len(),
        forall|j: int| i <= j < s.len() ==> s[j] == varint_encode_u32(u >> ((7 * i) as u32))[j - i],
    ensures
        varint_decode_u32_from(s, i, acc) == Err::<(u32, nat), de::Error>(de::Error::Io(IoError::UnexpectedEof)),
    decreases 4 - i,
{
    let k = (7 * i) as u32;
    let w = u >> k;
    let e = varint_encode_u32(w);
    if s.len() > i {
        assert(w >= 0x80);
        let b = ((w & 0x7f) | 0x80) as u8;
        assert(e[0] == b);
        assert(s[i as int] == b);
        assert((b & 0x80) != 0) by (bit_vector)
            requires
                b == ((w & 0x7f) | 0x80) as u8,
        ;
        assert(k <= 28);
        assert(k <= 24) by (bit_vector)
            requires
                w == u >> k,
                w >= 0x80,
                k <= 28,
        ;
        let k2 = (7 * (i + 1)) as u32;
        assert(k2 == k + 7);
        assert(w >> 7u32 == u >> k2) by (bit_vector)
            requires
                k <= 24,
                k2 == k + 7,
                w == u >> k,
        ;
        let e2 = varint_encode_u32(w >> 7u32);
        assert(e == seq![b] + e2);
        let acc2 = acc | (((b & 0x7f) as u32) << k);
        assert forall|j: int| i + 1 <= j < s.len() implies s[j] == e2[j - (i + 1)] by {
            assert(s[j] == e[j - i]);
        }
        lemma_decode_prefix_u32(u, i + 1, s, acc2);
    }
}

/// Every proper prefix of the encoding of `u` reads as incomplete: fed the
/// encoding byte by byte, a reader asks for more until the last byte, which
/// completes the value.
pub proof fn lemma_encoding_prefix_incomplete(u: u32, k: int)
    requires
        0 <= k < varint_encode_u32(u).len(),
    ensures
        varint_decode_u32(varint_encode_u32(u).take(k)) == Err::<(u32, nat), de::Error>(
            de::Error::Io(IoError::UnexpectedEof),
        ),
{
    let e = varint_encode_u32(u);
    assert(u >> 0u32 == u) by (bit_vector);
    lemma_decode_prefix_u32(u, 0, e.take(k), 0);
}

/// Reading a variable-length integer fails only for a missing byte or for
/// a sixth byte.
pub proof fn lemma_decode_error_kind(s: Seq<u8>, i: nat, acc: u32)
    ensures
        varint_decode_u32_from(s, i, acc) matches Err(e) ==> (e is Message || e is Io),
    decreases 5 - i,
{
    if i < 5 && i < s.len() {
        let b = s[i as int];
        let acc2 = acc | (((b & 0x7f) as u32) << ((7 * i) as u32));
        lemma_decode_error_kind(s, i + 1, acc2);
    }
}

/// A 32-bit signed integer in the protocol's variable-length encoding.
#[derive(Debug, PartialEq, Eq, PartialOrd, Ord, Clone, Copy, Hash)]
pub struct VarInt(pub i32);

/// The number of binary digits of `n`.
pub open spec fn bit_length(n: nat) -> nat
    decreases n,
{
    if n == 0 {
        0
    } else {
        1 + bit_length(n / 2)
    }
}

/// The magnitude of `v`.
pub open spec fn magnitude(v: int) -> nat {
    if v < 0 {
        (-v) as nat
    } else {
        v as nat
    }
}

impl VarInt {
    /// The number of seven-bit groups in the magnitude of the value,
    /// `ceil(bits(|v|) / 7)`.
    pub fn len(&self) -> (n: usize)
        requires
            self.0 != i32::MIN,
        ensures
            n == (bit_length(magnitude(self.0 as int)) + 6) / 7,
    {
        let mut x: u32 = if self.0 >= 0 {
            self.0 as u32
        } else {
            (-self.0) as u32
        };
        let mut bits: usize = 0;
        proof {
            lemma_pow2_32();
            lemma_bit_length_bound(x as nat, 32);
        }
        while x > 0
            invariant
                bits + bit_length(x as nat) == bit_length(magnitude(self.0 as int)),
                bit_length(magnitude(self.0 as int)) <= 32,
            decreases x,
        {
            x = x / 2;
            bits = bits + 1;
        }
        (bits + 6) / 7
    }

    pub fn into_inner(self) -> (v: i32)
        ensures
            v == self.0,
    {
        self.0
    }
}

/// `2^n`.
pub open spec fn pow2_nat(n: nat) -> nat
    decreases n,
{
    if n == 0 {
        1
    } else {
        2 * pow2_nat((n - 1) as nat)
    }
}

proof fn lemma_pow2_step(n: nat)
    ensures
        pow2_nat(n + 1) == 2 * pow2_nat(n),
        pow2_nat(n) > 0,
    decreases n,
{
    if n > 0 {
        lemma_pow2_step((n - 1) as nat);
    }
}

proof fn lemma_pow2_32()
    ensures
        pow2_nat(32) == 0x1_0000_0000,
{
    reveal_with_fuel(pow2_nat, 33);
}

proof fn lemma_bit_length_bound(n: nat, k: nat)
    requires
        n < pow2_nat(k),
    ensures
        bit_length(n) <= k,
    decreases k,
{
    if n > 0 {
        assert(k > 0);
        lemma_pow2_step((k - 1) as nat);
        lemma_bit_length_bound(n / 2, (k - 1) as nat);
    }
}

proof fn lemma_bit_length_shift7(n: nat)
    requires
        n >= 128,
    ensures
        bit_length(n) == 7 + bit_length(n / 128),
{
    let n1 = n / 2;
    let n2 = n1 / 2;
    let n3 = n2 / 2;
    let n4 = n3 / 2;
    let n5 = n4 / 2;
    let n6 = n5 / 2;
    let n7 = n6 / 2;
    assert(n7 == n / 128 && n6 > 0) by (nonlinear_arith)
        requires
            n >= 128,
            n1 == n / 2,
            n2 == n1 / 2,
            n3 == n2 / 2,
            n4 == n3 / 2,
            n5 == n4 / 2,
            n6 == n5 / 2,
            n7 == n6 / 2,
    ;
    assert(bit_length(n6) == 1 + bit_length(n7));
    assert(bit_length(n5) == 1 + bit_length(n6));
    assert(bit_length(n4) == 1 + bit_length(n5));
    assert(bit_length(n3) == 1 + bit_length(n4));
    assert(bit_length(n2) == 1 + bit_length(n3));
    assert(bit_length(n1) == 1 + bit_length(n2));
}

proof fn lemma_encoded_len_u32(u: u32)
    requires
        u > 0,
    ensures
        varint_encode_u32(u).len() == (bit_length(u as nat) + 6) / 7,
    decreases u,
{
    if u < 0x80 {
        lemma_pow2_step(6);
        reveal_with_fuel(pow2_nat, 8);
        lemma_bit_length_bound(u as nat, 7);
    } else {
        assert(u >> 7u32 == u / 128 && u >> 7u32 > 0) by (bit_vector)
            requires
                u >= 0x80,
        ;
        lemma_encoded_len_u32(u >> 7u32);
        lemma_bit_length_shift7(u as nat);
    }
}

/// For a positive value, [`VarInt::len`] is the number of bytes that the
/// value takes on the wire.
pub proof fn lemma_len_is_encoded_len(v: i32)
    requires
        v > 0,
    ensures
        (bit_length(magnitude(v as int)) + 6) / 7 == VarInt::spec_serialize(v)->Ok_0.len(),
{
    lemma_encoded_len_u32(v as u32);
}

impl Model for VarInt {
    type Abstract = i32;

    open spec fn model(&self) -> i32 {
        self.0
    }
}

impl Serialize for VarInt {
    open spec fn spec_serialize(v: i32) -> Result<Seq<u8>, ser::Error> {
        Ok(varint_encode_u32(v as u32))
    }

    fn serialize(&self, writer: &mut Vec<u8>) -> (r: Result<(), ser::Error>) {
        let ghost start = writer@;
        let ghost whole = varint_encode_u32(self.0 as u32);
        let mut value: u32 = self.0 as u32;
        while value >= 0x80
            invariant
                start + whole == writer@ + varint_encode_u32(value),
            decreases value,
        {
            let byte = ((value & 0x7f) | 0x80) as u8;
            let ghost before = writer@;
            let ghost rest = varint_encode_u32(value >> 7u32);
            assert(varint_encode_u32(value) == seq![byte] + rest);
            writer.push(byte);
            assert(before + (seq![byte] + rest) =~= writer@ + rest);
            assert(value >= 0x80 ==> value >> 7u32 < value) by (bit_vector);
            value = value >> 7u32;
        }
        writer.push(value as u8);
        assert(varint_encode_u32(value) == seq![value as u8]);
        assert(writer@ =~= start + whole);
        assert(start == old(writer)@);
        assert(Self::spec_serialize(self.model()) == Ok::<Seq<u8>, ser::Error>(whole));
        Ok(())
    }
}

impl Deserialize for VarInt {
    open spec fn spec_accepts(input: Seq<u8>) -> bool {
        true
    }

    open spec fn spec_deserialize(input: Seq<u8>) -> Result<(i32, nat), de::Error> {
        match varint_decode_u32(input) {
            Ok((u, n)) => Ok((u as i32, n)),
            Err(e) => Err(e),
        }
    }

    fn deserialize(reader: &mut Reader) -> (r: Result<Self, de::Error>)
        ensures
            r matches Err(de::Error::Message(_)) ==> final(reader)@ == old(reader)@.skip(5),
            r matches Err(de::Error::Io(_)) ==> final(reader)@.len() == 0,
    {
        let ghost input = reader@;
        let mut value: u32 = 0;
        let mut i: usize = 0;
        while i < 5
            invariant
                input == old(reader)@,
                i <= 5,
                i <= input.len(),
                reader@ == input.skip(i as int),
                varint_decode_u32(input) == varint_decode_u32_from(input, i as nat, value),
            decreases 5 - i,
        {
            let b = match reader.read_byte() {
                Some(b) => b,
                None => {
                    assert(varint_decode_u32_from(input, i as nat, value) == Err::<(u32, nat), de::Error>(de::Error::Io(IoError::UnexpectedEof)));
                    assert(input.skip(i as int).len() == 0);
                    assert(input.skip(i as int).is_suffix_of(input));
                    assert(Self::spec_deserialize(input) == Err::<(i32, nat), de::Error>(de::Error::Io(IoError::UnexpectedEof)));
                    return Err(de::Error::Io(IoError::UnexpectedEof));
                },
            };
            assert(b == input[i as int]);
            let ghost old_value = value;
            let ghost old_i = i;
            value = value | (((b & 0x7f) as u32) << ((7 * i) as u32));
            assert(varint_decode_u32_from(input, old_i as nat, old_value) == if b & 0x80 == 0 {
                Ok((value, (old_i + 1) as nat))
            } else {
                varint_decode_u32_from(input, (old_i + 1) as nat, value)
            });
            i = i + 1;
            assert(reader@ =~= input.skip(i as int));
            if b & 0x80 == 0 {
                let r = VarInt(value as i32);
                assert(varint_decode_u32(input) == Ok::<(u32, nat), de::Error>((value, i as nat)));
                assert(Self::spec_deserialize(input) == Ok::<(i32, nat), de::Error>((value as i32, i as nat)));
                assert(r.model() == value as i32);
                return Ok(r);
            }
        }
        assert(reader@.is_suffix_of(input));
        assert(Self::spec_deserialize(input) == Err::<(i32, nat), de::Error>(de::Error::Message(VARINT_TOO_LARGE)));
        Err(de::Error::Message(VARINT_TOO_LARGE))
    }
}

} // verus!

verus! {

impl crate::protocol::ser_de::codec::Codec for VarInt {
    open spec fn spec_wf(v: i32) -> bool {
        true
    }

    proof fn lemma_roundtrip(v: i32, rest: Seq<u8>) {
        lemma_varint_u32_roundtrip(v as u32, rest);
        let u = v as u32;
        assert((u as i32) == v) by (bit_vector)
            requires u == v as u32;
    }
}

} // verus!
