use vstd::prelude::*;

use crate::protocol::data_types::var_int::{varint_decode_u32, VarInt, VARINT_TOO_LARGE};
use crate::protocol::ser_de::de::{self, IoError};

verus! {

/// What one more byte of a variable-length integer read from a stream leads
/// to.
#[derive(Debug, Clone, Copy, PartialEq, Eq)]
pub enum VarIntStep {
    /// The integer is complete.
    Done(VarInt),
    /// Another byte is needed.
    NeedMore,
    /// Five bytes have been read and the integer is still not complete.
    TooLarge,
}

/// Decodes a variable-length integer one byte at a time, for a stream where
/// bytes arrive one by one.
pub struct VarIntDecoder {
    value: u32,
    count: usize,
    fed: Ghost<Seq<u8>>,
}

impl VarIntDecoder {
    /// The bytes fed since the decoder was created or last finished.
    pub closed spec fn fed(self) -> Seq<u8> {
        self.fed@
    }

    #[verifier::type_invariant]
    spec fn inv(self) -> bool {
        &&& self.count == self.fed@.len()
        &&& self.count < 5
        &&& forall|s: Seq<u8>|
            #![trigger varint_decode_u32(s)]
            self.fed@.is_prefix_of(s) ==> varint_decode_u32(s)
                == crate::protocol::data_types::var_int::varint_decode_u32_from(s, self.count as nat, self.value)
    }

    pub fn new() -> (d: Self)
        ensures
            d.fed() == Seq::<u8>::empty(),
    {
        VarIntDecoder { value: 0, count: 0, fed: Ghost(Seq::empty()) }
    }

    /// Feeds the next byte. The outcome is that of decoding the bytes fed so
    /// far: a complete integer, a request for more, or the length limit. On
    /// a complete integer or the limit the decoder starts over.
    pub fn push(&mut self, byte: u8) -> (step: VarIntStep)
        ensures
            match varint_decode_u32(old(self).fed().push(byte)) {
                Ok((u, n)) => step == VarIntStep::Done(VarInt(u as i32)) && final(self).fed() == Seq::<u8>::empty(),
                Err(de::Error::Io(_)) => step == VarIntStep::NeedMore && final(self).fed() == old(self).fed().push(byte),
                Err(_) => step == VarIntStep::TooLarge && final(self).fed() == Seq::<u8>::empty(),
            },
    {
        proof {
            use_type_invariant(&*self);
        }
        let ghost s = self.fed@.push(byte);
        assert(self.fed@.is_prefix_of(s));
        let ghost old_value = self.value;
        let ghost old_count = self.count;
        let value = self.value | (((byte & 0x7f) as u32) << ((7 * self.count) as u32));
        assert(s[old_count as int] == byte);
        assert(crate::protocol::data_types::var_int::varint_decode_u32_from(s, old_count as nat, old_value) == if byte & 0x80 == 0 {
            Ok((value, (old_count + 1) as nat))
        } else {
            crate::protocol::data_types::var_int::varint_decode_u32_from(s, (old_count + 1) as nat, value)
        });
        if byte & 0x80 == 0 {
            *self = VarIntDecoder::new();
            return VarIntStep::Done(VarInt(value as i32));
        }
        if self.count + 1 >= 5 {
            assert(crate::protocol::data_types::var_int::varint_decode_u32_from(s, (old_count + 1) as nat, value) == Err::<(u32, nat), de::Error>(de::Error::Message(VARINT_TOO_LARGE)));
            *self = VarIntDecoder::new();
            return VarIntStep::TooLarge;
        }
        assert(crate::protocol::data_types::var_int::varint_decode_u32_from(s, (old_count + 1) as nat, value) == Err::<(u32, nat), de::Error>(de::Error::Io(IoError::UnexpectedEof)));
        let ghost fed_before = self.fed@;
        proof {
            assert forall|t: Seq<u8>| #![trigger varint_decode_u32(t)] s.is_prefix_of(t) implies varint_decode_u32(t)
                == crate::protocol::data_types::var_int::varint_decode_u32_from(t, (old_count + 1) as nat, value) by {
                assert(fed_before.is_prefix_of(t));
                assert(t[old_count as int] == byte);
            }
        }
        *self = VarIntDecoder { value, count: self.count + 1, fed: Ghost(s) };
        VarIntStep::NeedMore
    }
}

} // verus!
