use vstd::prelude::*;
use vstd::utf8::{decode_utf8, encode_utf8, encode_utf8_decode_utf8, encode_utf8_valid_utf8, valid_utf8};

use crate::protocol::data_types::var_int::{lemma_decode_error_kind, lemma_varint_u32_roundtrip, varint_decode_u32, varint_encode_u32, VarInt};
use crate::protocol::ser_de::codec::Codec;
use crate::protocol::ser_de::de::{self, de_post, Deserialize, IoError};
use crate::protocol::ser_de::model::Model;
use crate::protocol::ser_de::reader::Reader;
use crate::protocol::ser_de::seq_facts::{lemma_skip_is_suffix, lemma_suffix_refl, lemma_suffix_trans};
use crate::protocol::ser_de::ser::{self, ser_post, Serialize};

verus! {

/// The longest string the protocol allows, in UTF-16 code units.
pub const DEFAULT_MAX_LEN: usize = 32767;

pub const UTF16_LENGTH_CONTEXT: &'static str = "String length in UTF16";

pub const BYTES_LENGTH_CONTEXT: &'static str = "String length in bytes";

pub const DESERIALIZE_LENGTH_CONTEXT: &'static str = "String deserialization, exceeds max length in bytes (32767 * 3 = 98301)";

/// The number of UTF-16 code units that encode `c`.
pub open spec fn utf16_units(c: char) -> nat {
    if (c as u32) >= 0x10000 {
        2
    } else {
        1
    }
}

/// The length of `s` in UTF-16 code units.
pub open spec fn utf16_len(s: Seq<char>) -> nat
    decreases s.len(),
{
    if s.len() == 0 {
        0
    } else {
        utf16_units(s[0]) + utf16_len(s.drop_first())
    }
}

pub proof fn lemma_utf16_len_concat(a: Seq<char>, b: Seq<char>)
    ensures
        utf16_len(a + b) == utf16_len(a) + utf16_len(b),
    decreases a.len(),
{
    if a.len() > 0 {
        assert((a + b).drop_first() =~= a.drop_first() + b);
        lemma_utf16_len_concat(a.drop_first(), b);
    } else {
        assert(a + b =~= b);
    }
}

/// No character takes more UTF-16 code units than UTF-8 bytes.
pub proof fn lemma_utf16_len_le_utf8_len(s: Seq<char>)
    ensures
        utf16_len(s) <= encode_utf8(s).len(),
    decreases s.len(),
{
    if s.len() > 0 {
        lemma_utf16_len_le_utf8_len(s.drop_first());
        vstd::utf8::char_is_scalar(s[0]);
    }
}

/// The error reported when writing `v` with room for `max_len` code units,
/// if any.
pub open spec fn string_length_error(v: Seq<char>, max_len: usize) -> Option<ser::Error> {
    if utf16_len(v) > max_len {
        Some(ser::Error::TooLong { expected: max_len, actual: utf16_len(v) as usize, context: UTF16_LENGTH_CONTEXT })
    } else if encode_utf8(v).len() > max_len * 3 {
        Some(ser::Error::TooLong { expected: (max_len * 3) as usize, actual: encode_utf8(v).len() as usize, context: BYTES_LENGTH_CONTEXT })
    } else {
        None
    }
}

/// No character takes more than three UTF-8 bytes per UTF-16 code unit.
pub proof fn lemma_utf8_len_le_three_utf16(s: Seq<char>)
    ensures
        encode_utf8(s).len() <= 3 * utf16_len(s),
    decreases s.len(),
{
    if s.len() > 0 {
        lemma_utf8_len_le_three_utf16(s.drop_first());
        vstd::utf8::char_is_scalar(s[0]);
    }
}

/// Writing a string with room for `max_len` code units fails exactly when
/// the string has more than `max_len` UTF-16 code units: within that limit
/// its UTF-8 bytes never exceed three times `max_len`.
pub proof fn lemma_length_error_iff_utf16(v: Seq<char>, max_len: usize)
    ensures
        string_length_error(v, max_len) is Some <==> utf16_len(v) > max_len,
{
    lemma_utf8_len_le_three_utf16(v);
}

/// `String::from_utf8`: the bytes become a string exactly when they are valid
/// UTF-8, and the string holds the characters they encode.
#[verifier::external_body]
fn string_from_utf8(bytes: Vec<u8>) -> (r: Option<String>)
    ensures
        r is Some <==> valid_utf8(bytes@),
        r matches Some(s) ==> s@ == decode_utf8(bytes@),
{
    String::from_utf8(bytes).ok()
}

/// A string of the protocol, with a limit of `MAX_LEN` UTF-16 code units
/// that writing it enforces.
#[derive(Debug, PartialEq, Eq, PartialOrd, Ord, Hash)]
pub struct ProtoString<const MAX_LEN: usize>(String);

impl<const MAX_LEN: usize> ProtoString<MAX_LEN> {
    #[verifier::type_invariant]
    spec fn limit_in_range(self) -> bool {
        MAX_LEN <= DEFAULT_MAX_LEN
    }

    pub fn new(inner: String) -> (r: Self)
        requires
            MAX_LEN <= DEFAULT_MAX_LEN,
        ensures
            r@ == inner@,
    {
        ProtoString(inner)
    }

    pub fn into_inner(self) -> (r: String)
        ensures
            r@ == self@,
    {
        self.0
    }

    pub fn as_str(&self) -> (r: &str)
        ensures
            r@ == self@,
    {
        self.0.as_str()
    }

    /// The UTF-8 bytes of the string.
    pub fn as_bytes(&self) -> (r: &[u8])
        ensures
            r@ == encode_utf8(self@),
    {
        self.0.as_str().as_bytes()
    }

    /// The length of the string in UTF-16 code units.
    pub fn utf16_len(&self) -> (n: usize)
        ensures
            n == utf16_len(self@),
    {
        let s = self.0.as_str();
        let bytes = s.as_bytes();
        let bytes_len = bytes.len();
        let ghost chars = s@;
        proof {
            lemma_utf16_len_le_utf8_len(chars);
        }
        let mut n: usize = 0;
        let ghost mut k: int = 0;
        for c in it: s.chars()
            invariant
                it.seq() == chars,
                k == it.index(),
                0 <= k <= chars.len(),
                n == utf16_len(chars.take(k)),
                utf16_len(chars) <= bytes_len,
        {
            proof {
                assert(chars.take(k + 1) =~= chars.take(k) + seq![c]);
                lemma_utf16_len_concat(chars.take(k), seq![c]);
                assert(chars =~= chars.take(k + 1) + chars.skip(k + 1));
                lemma_utf16_len_concat(chars.take(k + 1), chars.skip(k + 1));
                assert(utf16_len(seq![c]) == utf16_units(c)) by {
                    assert(seq![c].drop_first() =~= Seq::<char>::empty());
                    assert(utf16_len(Seq::<char>::empty()) == 0);
                }
            }
            if (c as u32) >= 0x10000 {
                n = n + 2;
            } else {
                n = n + 1;
            }
            proof {
                k = k + 1;
            }
        }
        assert(chars.take(k) =~= chars);
        n
    }
}

impl<const MAX_LEN: usize> Clone for ProtoString<MAX_LEN> {
    fn clone(&self) -> (r: Self)
        ensures
            r@ == self@,
    {
        proof {
            use_type_invariant(self);
        }
        ProtoString(self.0.clone())
    }
}

impl<const MAX_LEN: usize> View for ProtoString<MAX_LEN> {
    type V = Seq<char>;

    closed spec fn view(&self) -> Seq<char> {
        self.0@
    }
}

impl<const MAX_LEN: usize> Model for ProtoString<MAX_LEN> {
    type Abstract = Seq<char>;

    open spec fn model(&self) -> Seq<char> {
        self@
    }
}

impl<const MAX_LEN: usize> Serialize for ProtoString<MAX_LEN> {
    open spec fn spec_serialize(v: Seq<char>) -> Result<Seq<u8>, ser::Error> {
        match string_length_error(v, MAX_LEN) {
            Some(e) => Err(e),
            None => Ok(varint_encode_u32((encode_utf8(v).len() as i32) as u32) + encode_utf8(v)),
        }
    }

    fn serialize(&self, writer: &mut Vec<u8>) -> (r: Result<(), ser::Error>)
        ensures
            r is Err ==> final(writer)@ == old(writer)@,
    {
        proof {
            use_type_invariant(self);
            lemma_suffix_refl(writer@);
        }
        let utf16_len = self.utf16_len();
        if utf16_len > MAX_LEN {
            assert(old(writer)@.is_prefix_of(writer@));
            return Err(
                ser::Error::TooLong { expected: MAX_LEN, actual: utf16_len, context: UTF16_LENGTH_CONTEXT },
            );
        }
        let bytes = self.as_bytes();
        let bytes_len = bytes.len();
        if bytes_len > MAX_LEN * 3 {
            assert(old(writer)@.is_prefix_of(writer@));
            return Err(
                ser::Error::TooLong { expected: MAX_LEN * 3, actual: bytes_len, context: BYTES_LENGTH_CONTEXT },
            );
        }
        let _ = VarInt(bytes_len as i32).serialize(writer);
        let ghost mid = writer@;
        writer.extend_from_slice(bytes);
        assert(writer@ =~= old(writer)@ + (varint_encode_u32((bytes_len as i32) as u32) + encode_utf8(self@)));
        Ok(())
    }
}

impl<const MAX_LEN: usize> Deserialize for ProtoString<MAX_LEN> {
    open spec fn spec_accepts(input: Seq<u8>) -> bool {
        MAX_LEN <= DEFAULT_MAX_LEN
    }

    open spec fn spec_deserialize(input: Seq<u8>) -> Result<(Seq<char>, nat), de::Error> {
        match varint_decode_u32(input) {
            Err(e) => Err(e),
            Ok((u, n)) => {
                let len = (u as i32) as usize;
                if len > MAX_LEN * 3 {
                    Err(de::Error::TooLong { expected: (MAX_LEN * 3) as usize, actual: len, context: DESERIALIZE_LENGTH_CONTEXT })
                } else if n + len > input.len() {
                    Err(de::Error::Io(IoError::UnexpectedEof))
                } else if !valid_utf8(input.subrange(n as int, n + len)) {
                    Err(de::Error::FromUtf8Error)
                } else {
                    Ok((decode_utf8(input.subrange(n as int, n + len)), (n + len) as nat))
                }
            },
        }
    }

    fn deserialize(reader: &mut Reader) -> (r: Result<Self, de::Error>)
        ensures
            r matches Err(de::Error::TooLong { .. }) ==> final(reader)@ == old(reader)@.skip(
                varint_decode_u32(old(reader)@)->Ok_0.1 as int,
            ),
            r matches Err(de::Error::FromUtf8Error) ==> final(reader)@ == old(reader)@.skip(
                varint_decode_u32(old(reader)@)->Ok_0.1 + ((varint_decode_u32(old(reader)@)->Ok_0.0 as i32) as usize),
            ),
    {
        let ghost input = reader@;
        let bytes_length = match VarInt::deserialize(reader) {
            Ok(v) => v.0 as usize,
            Err(e) => {
                proof {
                    lemma_decode_error_kind(input, 0, 0);
                }
                return Err(e);
            },
        };
        let ghost n = varint_decode_u32(input)->Ok_0.1;
        proof {
            lemma_skip_is_suffix(input, n as int);
        }
        if bytes_length > MAX_LEN * 3 {
            return Err(
                de::Error::TooLong {
                    expected: MAX_LEN * 3,
                    actual: bytes_length,
                    context: DESERIALIZE_LENGTH_CONTEXT,
                },
            );
        }
        let ghost mid = reader@;
        let byte_buffer = match reader.read_exact(bytes_length) {
            Some(b) => b,
            None => {
                return Err(de::Error::Io(IoError::UnexpectedEof));
            },
        };
        proof {
            assert(byte_buffer@ =~= input.subrange(n as int, n + bytes_length));
            assert(reader@ =~= input.skip(n + bytes_length));
            lemma_skip_is_suffix(mid, bytes_length as int);
            lemma_suffix_trans(reader@, mid, input);
        }
        let value = match string_from_utf8(byte_buffer) {
            Some(s) => s,
            None => {
                return Err(de::Error::FromUtf8Error);
            },
        };
        Ok(Self::new(value))
    }
}

impl<const MAX_LEN: usize> Codec for ProtoString<MAX_LEN> {
    open spec fn spec_wf(v: Seq<char>) -> bool {
        MAX_LEN <= DEFAULT_MAX_LEN
    }

    proof fn lemma_roundtrip(v: Seq<char>, rest: Seq<u8>) {
        let e = encode_utf8(v);
        let l = e.len() as i32;
        let u = l as u32;
        let p = varint_encode_u32(u);
        lemma_varint_u32_roundtrip(u, e + rest);
        assert(p + (e + rest) =~= p + e + rest);
        assert(e.len() <= 3 * 32767);
        assert((u as i32) == l) by (bit_vector)
            requires u == l as u32;
        assert((p + e + rest).subrange(p.len() as int, (p.len() + e.len()) as int) =~= e);
        encode_utf8_valid_utf8(v);
        encode_utf8_decode_utf8(v);
    }
}

} // verus!
