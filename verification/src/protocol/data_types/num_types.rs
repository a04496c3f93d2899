use vstd::prelude::*;

use crate::protocol::ser_de::codec::Codec;
use crate::protocol::ser_de::de::{self, Deserialize};
use crate::protocol::ser_de::reader::Reader;
use crate::protocol::ser_de::ser::{self, Serialize};

verus! {

/// The error reported when a fixed-width number runs past the end of the
/// input.
pub open spec fn too_few_bytes() -> de::Error {
    de::Error::TooFewBytes { expected: 1, actual: 0 }
}

/// Big-endian bytes of a 16-bit word.
pub open spec fn be_u16(v: u16) -> Seq<u8> {
    seq![(v >> 8u16) as u8, v as u8]
}

/// The 16-bit word whose big-endian bytes start `s`.
pub open spec fn from_be_u16(s: Seq<u8>) -> u16 {
    ((s[0] as u16) << 8u16) | (s[1] as u16)
}

/// Big-endian bytes of a 32-bit word.
pub open spec fn be_u32(v: u32) -> Seq<u8> {
    seq![(v >> 24u32) as u8, (v >> 16u32) as u8, (v >> 8u32) as u8, v as u8]
}

/// The 32-bit word whose big-endian bytes start `s`.
pub open spec fn from_be_u32(s: Seq<u8>) -> u32 {
    ((s[0] as u32) << 24u32) | ((s[1] as u32) << 16u32) | ((s[2] as u32) << 8u32) | (s[3] as u32)
}

/// Big-endian bytes of a 64-bit word.
pub open spec fn be_u64(v: u64) -> Seq<u8> {
    seq![
        (v >> 56u64) as u8,
        (v >> 48u64) as u8,
        (v >> 40u64) as u8,
        (v >> 32u64) as u8,
        (v >> 24u64) as u8,
        (v >> 16u64) as u8,
        (v >> 8u64) as u8,
        v as u8,
    ]
}

/// The 64-bit word whose big-endian bytes start `s`.
pub open spec fn from_be_u64(s: Seq<u8>) -> u64 {
    ((s[0] as u64) << 56u64) | ((s[1] as u64) << 48u64) | ((s[2] as u64) << 40u64) | ((s[3] as u64)
        << 32u64) | ((s[4] as u64) << 24u64) | ((s[5] as u64) << 16u64) | ((s[6] as u64) << 8u64)
        | (s[7] as u64)
}

pub proof fn lemma_be_u16_roundtrip(v: u16, rest: Seq<u8>)
    ensures
        from_be_u16(be_u16(v) + rest) == v,
        (be_u16(v) + rest).len() == 2 + rest.len(),
{
    let s = be_u16(v) + rest;
    let (b0, b1) = (s[0], s[1]);
    assert(b0 == (v >> 8u16) as u8 && b1 == v as u8);
    assert(((b0 as u16) << 8u16) | (b1 as u16) == v) by (bit_vector)
        requires
            b0 == (v >> 8u16) as u8,
            b1 == v as u8;
}

pub proof fn lemma_be_u32_roundtrip(v: u32, rest: Seq<u8>)
    ensures
        from_be_u32(be_u32(v) + rest) == v,
        (be_u32(v) + rest).len() == 4 + rest.len(),
{
    let s = be_u32(v) + rest;
    let (b0, b1, b2, b3) = (s[0], s[1], s[2], s[3]);
    assert(b0 == (v >> 24u32) as u8 && b1 == (v >> 16u32) as u8 && b2 == (v >> 8u32) as u8 && b3
        == v as u8);
    assert(((b0 as u32) << 24u32) | ((b1 as u32) << 16u32) | ((b2 as u32) << 8u32) | (b3 as u32)
        == v) by (bit_vector)
        requires
            b0 == (v >> 24u32) as u8,
            b1 == (v >> 16u32) as u8,
            b2 == (v >> 8u32) as u8,
            b3 == v as u8;
}

pub proof fn lemma_be_u64_roundtrip(v: u64, rest: Seq<u8>)
    ensures
        from_be_u64(be_u64(v) + rest) == v,
        (be_u64(v) + rest).len() == 8 + rest.len(),
{
    let s = be_u64(v) + rest;
    let (b0, b1, b2, b3, b4, b5, b6, b7) = (s[0], s[1], s[2], s[3], s[4], s[5], s[6], s[7]);
    assert(b0 == (v >> 56u64) as u8 && b1 == (v >> 48u64) as u8 && b2 == (v >> 40u64) as u8 && b3
        == (v >> 32u64) as u8 && b4 == (v >> 24u64) as u8 && b5 == (v >> 16u64) as u8 && b6 == (v
        >> 8u64) as u8 && b7 == v as u8);
    assert(((b0 as u64) << 56u64) | ((b1 as u64) << 48u64) | ((b2 as u64) << 40u64) | ((b3 as u64)
        << 32u64) | ((b4 as u64) << 24u64) | ((b5 as u64) << 16u64) | ((b6 as u64) << 8u64) | (b7
        as u64) == v) by (bit_vector)
        requires
            b0 == (v >> 56u64) as u8,
            b1 == (v >> 48u64) as u8,
            b2 == (v >> 40u64) as u8,
            b3 == (v >> 32u64) as u8,
            b4 == (v >> 24u64) as u8,
            b5 == (v >> 16u64) as u8,
            b6 == (v >> 8u64) as u8,
            b7 == v as u8;
}

fn write_be_u16(writer: &mut Vec<u8>, v: u16)
    ensures
        final(writer)@ == old(writer)@ + be_u16(v),
{
    writer.push((v >> 8u16) as u8);
    writer.push(v as u8);
    assert(writer@ =~= old(writer)@ + be_u16(v));
}

fn write_be_u32(writer: &mut Vec<u8>, v: u32)
    ensures
        final(writer)@ == old(writer)@ + be_u32(v),
{
    writer.push((v >> 24u32) as u8);
    writer.push((v >> 16u32) as u8);
    writer.push((v >> 8u32) as u8);
    writer.push(v as u8);
    assert(writer@ =~= old(writer)@ + be_u32(v));
}

pub fn write_be_u64(writer: &mut Vec<u8>, v: u64)
    ensures
        final(writer)@ == old(writer)@ + be_u64(v),
{
    writer.push((v >> 56u64) as u8);
    writer.push((v >> 48u64) as u8);
    writer.push((v >> 40u64) as u8);
    writer.push((v >> 32u64) as u8);
    writer.push((v >> 24u64) as u8);
    writer.push((v >> 16u64) as u8);
    writer.push((v >> 8u64) as u8);
    writer.push(v as u8);
    assert(writer@ =~= old(writer)@ + be_u64(v));
}

/// Reads `n` bytes, reporting too few bytes when the input is shorter.
fn read_fixed(reader: &mut Reader, n: usize) -> (r: Result<Vec<u8>, de::Error>)
    ensures
        n <= old(reader)@.len() ==> (r matches Ok(b) && b@ == old(reader)@.take(n as int)
            && final(reader)@ == old(reader)@.skip(n as int)),
        n > old(reader)@.len() ==> r == Err::<Vec<u8>, de::Error>(too_few_bytes())
            && final(reader)@ == old(reader)@,
{
    match reader.read_exact(n) {
        Some(b) => Ok(b),
        None => Err(de::Error::TooFewBytes { expected: 1, actual: 0 }),
    }
}

impl Serialize for u8 {
    open spec fn spec_serialize(v: u8) -> Result<Seq<u8>, ser::Error> {
        Ok(seq![v])
    }

    fn serialize(&self, writer: &mut Vec<u8>) -> (r: Result<(), ser::Error>) {
        writer.push(*self);
        assert(writer@ =~= old(writer)@ + seq![*self]);
        Ok(())
    }
}

impl Deserialize for u8 {
    open spec fn spec_accepts(input: Seq<u8>) -> bool {
        true
    }

    open spec fn spec_deserialize(input: Seq<u8>) -> Result<(u8, nat), de::Error> {
        if input.len() < 1 {
            Err(too_few_bytes())
        } else {
            Ok((input[0], 1))
        }
    }

    fn deserialize(reader: &mut Reader) -> (r: Result<Self, de::Error>) {
        let b = read_fixed(reader, 1)?;
        Ok(b[0])
    }
}

impl Codec for u8 {
    open spec fn spec_wf(v: u8) -> bool {
        true
    }

    proof fn lemma_roundtrip(v: u8, rest: Seq<u8>) {
        assert((seq![v] + rest)[0] == v);
    }
}

impl Serialize for i8 {
    open spec fn spec_serialize(v: i8) -> Result<Seq<u8>, ser::Error> {
        Ok(seq![v as u8])
    }

    fn serialize(&self, writer: &mut Vec<u8>) -> (r: Result<(), ser::Error>) {
        writer.push(*self as u8);
        assert(writer@ =~= old(writer)@ + seq![*self as u8]);
        Ok(())
    }
}

impl Deserialize for i8 {
    open spec fn spec_accepts(input: Seq<u8>) -> bool {
        true
    }

    open spec fn spec_deserialize(input: Seq<u8>) -> Result<(i8, nat), de::Error> {
        if input.len() < 1 {
            Err(too_few_bytes())
        } else {
            Ok((input[0] as i8, 1))
        }
    }

    fn deserialize(reader: &mut Reader) -> (r: Result<Self, de::Error>) {
        let b = read_fixed(reader, 1)?;
        Ok(b[0] as i8)
    }
}

impl Codec for i8 {
    open spec fn spec_wf(v: i8) -> bool {
        true
    }

    proof fn lemma_roundtrip(v: i8, rest: Seq<u8>) {
        assert((seq![v as u8] + rest)[0] == v as u8);
        assert((v as u8) as i8 == v) by (bit_vector);
    }
}

impl Serialize for u16 {
    open spec fn spec_serialize(v: u16) -> Result<Seq<u8>, ser::Error> {
        Ok(be_u16(v))
    }

    fn serialize(&self, writer: &mut Vec<u8>) -> (r: Result<(), ser::Error>) {
        write_be_u16(writer, *self);
        Ok(())
    }
}

impl Deserialize for u16 {
    open spec fn spec_accepts(input: Seq<u8>) -> bool {
        true
    }

    open spec fn spec_deserialize(input: Seq<u8>) -> Result<(u16, nat), de::Error> {
        if input.len() < 2 {
            Err(too_few_bytes())
        } else {
            Ok((from_be_u16(input), 2))
        }
    }

    fn deserialize(reader: &mut Reader) -> (r: Result<Self, de::Error>) {
        let b = read_fixed(reader, 2)?;
        Ok(((b[0] as u16) << 8u16) | (b[1] as u16))
    }
}

impl Codec for u16 {
    open spec fn spec_wf(v: u16) -> bool {
        true
    }

    proof fn lemma_roundtrip(v: u16, rest: Seq<u8>) {
        lemma_be_u16_roundtrip(v, rest);
    }
}

impl Serialize for i16 {
    open spec fn spec_serialize(v: i16) -> Result<Seq<u8>, ser::Error> {
        Ok(be_u16(v as u16))
    }

    fn serialize(&self, writer: &mut Vec<u8>) -> (r: Result<(), ser::Error>) {
        write_be_u16(writer, *self as u16);
        Ok(())
    }
}

impl Deserialize for i16 {
    open spec fn spec_accepts(input: Seq<u8>) -> bool {
        true
    }

    open spec fn spec_deserialize(input: Seq<u8>) -> Result<(i16, nat), de::Error> {
        if input.len() < 2 {
            Err(too_few_bytes())
        } else {
            Ok((from_be_u16(input) as i16, 2))
        }
    }

    fn deserialize(reader: &mut Reader) -> (r: Result<Self, de::Error>) {
        let b = read_fixed(reader, 2)?;
        Ok((((b[0] as u16) << 8u16) | (b[1] as u16)) as i16)
    }
}

impl Codec for i16 {
    open spec fn spec_wf(v: i16) -> bool {
        true
    }

    proof fn lemma_roundtrip(v: i16, rest: Seq<u8>) {
        lemma_be_u16_roundtrip(v as u16, rest);
        assert((v as u16) as i16 == v) by (bit_vector);
    }
}

impl Serialize for i32 {
    open spec fn spec_serialize(v: i32) -> Result<Seq<u8>, ser::Error> {
        Ok(be_u32(v as u32))
    }

    fn serialize(&self, writer: &mut Vec<u8>) -> (r: Result<(), ser::Error>) {
        write_be_u32(writer, *self as u32);
        Ok(())
    }
}

impl Deserialize for i32 {
    open spec fn spec_accepts(input: Seq<u8>) -> bool {
        true
    }

    open spec fn spec_deserialize(input: Seq<u8>) -> Result<(i32, nat), de::Error> {
        if input.len() < 4 {
            Err(too_few_bytes())
        } else {
            Ok((from_be_u32(input) as i32, 4))
        }
    }

    fn deserialize(reader: &mut Reader) -> (r: Result<Self, de::Error>) {
        let b = read_fixed(reader, 4)?;
        Ok((((b[0] as u32) << 24u32) | ((b[1] as u32) << 16u32) | ((b[2] as u32) << 8u32) | (b[3]
            as u32)) as i32)
    }
}

impl Codec for i32 {
    open spec fn spec_wf(v: i32) -> bool {
        true
    }

    proof fn lemma_roundtrip(v: i32, rest: Seq<u8>) {
        lemma_be_u32_roundtrip(v as u32, rest);
        assert((v as u32) as i32 == v) by (bit_vector);
    }
}

impl Serialize for i64 {
    open spec fn spec_serialize(v: i64) -> Result<Seq<u8>, ser::Error> {
        Ok(be_u64(v as u64))
    }

    fn serialize(&self, writer: &mut Vec<u8>) -> (r: Result<(), ser::Error>) {
        write_be_u64(writer, *self as u64);
        Ok(())
    }
}

/// Reads a big-endian 64-bit word.
pub fn read_be_u64(reader: &mut Reader) -> (r: Result<u64, de::Error>)
    ensures
        de::de_post::<u64>(
            if old(reader)@.len() < 8 {
                Err(too_few_bytes())
            } else {
                Ok((from_be_u64(old(reader)@), 8))
            },
            old(reader)@,
            r,
            final(reader)@,
        ),
{
    let b = read_fixed(reader, 8);
    match b {
        Err(e) => {
            assert(reader@.is_suffix_of(old(reader)@));
            Err(e)
        },
        Ok(b) => Ok(((b[0] as u64) << 56u64) | ((b[1] as u64) << 48u64) | ((b[2] as u64) << 40u64)
            | ((b[3] as u64) << 32u64) | ((b[4] as u64) << 24u64) | ((b[5] as u64) << 16u64) | ((
        b[6] as u64) << 8u64) | (b[7] as u64)),
    }
}

impl Deserialize for i64 {
    open spec fn spec_accepts(input: Seq<u8>) -> bool {
        true
    }

    open spec fn spec_deserialize(input: Seq<u8>) -> Result<(i64, nat), de::Error> {
        if input.len() < 8 {
            Err(too_few_bytes())
        } else {
            Ok((from_be_u64(input) as i64, 8))
        }
    }

    fn deserialize(reader: &mut Reader) -> (r: Result<Self, de::Error>) {
        let v = read_be_u64(reader)?;
        Ok(v as i64)
    }
}

impl Codec for i64 {
    open spec fn spec_wf(v: i64) -> bool {
        true
    }

    proof fn lemma_roundtrip(v: i64, rest: Seq<u8>) {
        lemma_be_u64_roundtrip(v as u64, rest);
        assert((v as u64) as i64 == v) by (bit_vector);
    }
}

} // verus!
