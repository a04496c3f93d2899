use vstd::prelude::*;

use crate::common::position::{Position, I12_MAX, I12_MIN, I26_MAX, I26_MIN};
use crate::protocol::data_types::num_types::{be_u64, from_be_u64, lemma_be_u64_roundtrip, read_be_u64, too_few_bytes, write_be_u64};
use crate::protocol::ser_de::codec::Codec;
use crate::protocol::ser_de::de::{self, Deserialize};
use crate::protocol::ser_de::model::Model;
use crate::protocol::ser_de::reader::Reader;
use crate::protocol::ser_de::ser::{self, Serialize};

verus! {

/// The 64-bit word a position travels as: `x` in the top 26 bits, then `z`
/// in 26 bits, then `y` in the low 12 bits.
pub open spec fn pack_position(p: Position) -> u64 {
    (((p.x as u64) & 0x3FFFFFF) << 38u64) | (((p.z as u64) & 0x3FFFFFF) << 12u64) | ((p.y as u64)
        & 0xFFF)
}

/// The position whose fields are the sign-extended bit fields of `v`.
pub open spec fn unpack_position(v: i64) -> Position {
    Position {
        x: (v >> 38i64) as i32,
        y: ((v << 52i64) >> 52i64) as i16,
        z: ((v << 26i64) >> 38i64) as i32,
    }
}

proof fn lemma_unpack_in_range(v: i64)
    ensures
        unpack_position(v).in_range(),
{
    assert(I26_MIN <= ((v >> 38i64) as i32) <= I26_MAX) by (bit_vector);
    assert(I12_MIN <= (((v << 52i64) >> 52i64) as i16) <= I12_MAX) by (bit_vector);
    assert(I26_MIN <= (((v << 26i64) >> 38i64) as i32) <= I26_MAX) by (bit_vector);
}

impl Model for Position {
    type Abstract = Position;

    open spec fn model(&self) -> Position {
        *self
    }
}

impl Serialize for Position {
    open spec fn spec_serialize(v: Position) -> Result<Seq<u8>, ser::Error> {
        Ok(be_u64(pack_position(v)))
    }

    fn serialize(&self, writer: &mut Vec<u8>) -> (r: Result<(), ser::Error>) {
        let packed = (((self.x as u64) & 0x3FFFFFF) << 38u64) | (((self.z as u64) & 0x3FFFFFF)
            << 12u64) | ((self.y as u64) & 0xFFF);
        write_be_u64(writer, packed);
        Ok(())
    }
}

impl Deserialize for Position {
    open spec fn spec_accepts(input: Seq<u8>) -> bool {
        true
    }

    open spec fn spec_deserialize(input: Seq<u8>) -> Result<(Position, nat), de::Error> {
        if input.len() < 8 {
            Err(too_few_bytes())
        } else {
            Ok((unpack_position(from_be_u64(input) as i64), 8))
        }
    }

    fn deserialize(reader: &mut Reader) -> (r: Result<Self, de::Error>) {
        let value = match read_be_u64(reader) {
            Ok(v) => v as i64,
            Err(e) => return Err(e),
        };
        proof {
            lemma_unpack_in_range(value);
        }
        let x = (value >> 38i64) as i32;
        let y = ((value << 52i64) >> 52i64) as i16;
        let z = ((value << 26i64) >> 38i64) as i32;
        Ok(Position::new(x, y, z))
    }
}

impl Codec for Position {
    open spec fn spec_wf(v: Position) -> bool {
        v.in_range()
    }

    proof fn lemma_roundtrip(v: Position, rest: Seq<u8>) {
        lemma_be_u64_roundtrip(pack_position(v), rest);
        let (x, y, z) = (v.x, v.y, v.z);
        let packed = pack_position(v);
        let w = packed as i64;
        assert({
            &&& (w >> 38i64) as i32 == x
            &&& ((w << 52i64) >> 52i64) as i16 == y
            &&& ((w << 26i64) >> 38i64) as i32 == z
        }) by (bit_vector)
            requires
                -33_554_432 <= x <= 33_554_431,
                -2048 <= y <= 2047,
                -33_554_432 <= z <= 33_554_431,
                packed == (((x as u64) & 0x3FFFFFF) << 38u64) | (((z as u64) & 0x3FFFFFF) << 12u64)
                    | ((y as u64) & 0xFFF),
                w == packed as i64;
    }
}

} // verus!
