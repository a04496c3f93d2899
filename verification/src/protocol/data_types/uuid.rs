use vstd::prelude::*;

use crate::protocol::ser_de::codec::Codec;
use crate::protocol::ser_de::de::{self, Deserialize, IoError};
use crate::protocol::ser_de::model::Model;
use crate::protocol::ser_de::reader::Reader;
use crate::protocol::ser_de::seq_facts::lemma_suffix_refl;
use crate::protocol::ser_de::ser::{self, Serialize};

verus! {

/// A universally unique identifier, held as its sixteen bytes in network
/// order.
#[derive(Debug, Clone, Copy, PartialEq, Eq, PartialOrd, Ord, Hash)]
pub struct Uuid([u8; 16]);

/// The lowercase hexadecimal digit for `n`.
pub open spec fn hex_digit(n: u8) -> char {
    if n < 10 {
        (('0' as u8) + n) as char
    } else {
        (('a' as u8) + (n - 10)) as char
    }
}

/// The hyphenated lowercase hexadecimal form of the bytes in `b` from index
/// `i` on: eight, four, four, four and twelve digits.
pub open spec fn hyphenated_from(b: Seq<u8>, i: int) -> Seq<char>
    decreases 16 - i,
{
    if i >= 16 {
        Seq::empty()
    } else {
        let digits = seq![hex_digit(b[i] >> 4u8), hex_digit(b[i] & 0x0f)];
        if i == 4 || i == 6 || i == 8 || i == 10 {
            seq!['-'] + digits + hyphenated_from(b, i + 1)
        } else {
            digits + hyphenated_from(b, i + 1)
        }
    }
}

/// The hyphenated lowercase form of a UUID's bytes, as in
/// `0b752614-d3a1-4eef-9d8a-00292f9ecdc5`.
pub open spec fn hyphenated(b: Seq<u8>) -> Seq<char> {
    hyphenated_from(b, 0)
}

/// The name-based (MD5, version 3) UUID that `uuid::Uuid::new_v3` derives from
/// `name` in the OID namespace, as its bytes.
pub uninterp spec fn uuid_v3_oid(name: Seq<u8>) -> Seq<u8>;

/// What `uuid::Uuid::parse_str` reads from `s`: the bytes of the UUID, or
/// nothing when `s` is not a UUID in one of the forms it accepts.
pub uninterp spec fn uuid_parsed(s: Seq<char>) -> Option<Seq<u8>>;

/// Calls `uuid::Uuid::new_v3` in the OID namespace. Its contract names the
/// result as a function of `name` alone; the MD5 digest it is built from is
/// not restated.
#[verifier::external_body]
pub(crate) fn new_v3_oid(name: &[u8]) -> (r: [u8; 16])
    ensures
        r@ == uuid_v3_oid(name@),
{
    *::uuid::Uuid::new_v3(&::uuid::Uuid::NAMESPACE_OID, name).as_bytes()
}

/// Calls `uuid::Uuid::parse_str`. Its contract names the result as a function
/// of the text alone, and states that the hyphenated lowercase form of a
/// UUID's bytes (one of the forms the crate documents as accepted) parses to
/// those bytes; which other textual forms are accepted is not restated.
#[verifier::external_body]
pub(crate) fn parse_str(s: &str) -> (r: Option<[u8; 16]>)
    ensures
        match r {
            Some(b) => uuid_parsed(s@) == Some(b@),
            None => uuid_parsed(s@) is None,
        },
        r is Some <== exists|b: Seq<u8>| b.len() == 16 && #[trigger] hyphenated(b) == s@,
        r matches Some(x) ==> forall|b: Seq<u8>| b.len() == 16 && #[trigger] hyphenated(b) == s@ ==> x@ == b,
{
    match ::uuid::Uuid::parse_str(s) {
        Ok(u) => Some(*u.as_bytes()),
        Err(_) => None,
    }
}

impl Uuid {
    /// Reads a UUID from text with `uuid::Uuid::parse_str`: the bytes of the
    /// UUID it names, or nothing when the text is not a UUID. The hyphenated
    /// form that [`Uuid::to_hyphenated_string`] writes reads back as the
    /// same UUID.
    pub fn parse_str(s: &str) -> (r: Option<Uuid>)
        ensures
            match r {
                Some(u) => uuid_parsed(s@) == Some(u@),
                None => uuid_parsed(s@) is None,
            },
            r is Some <== exists|b: Seq<u8>| b.len() == 16 && #[trigger] hyphenated(b) == s@,
            r matches Some(u) ==> forall|b: Seq<u8>| b.len() == 16 && #[trigger] hyphenated(b) == s@ ==> u@ == b,
    {
        match parse_str(s) {
            Some(bytes) => Some(Uuid::from_bytes(bytes)),
            None => None,
        }
    }

    pub fn from_bytes(bytes: [u8; 16]) -> (r: Self)
        ensures
            r@ == bytes@,
    {
        Uuid(bytes)
    }

    pub fn as_bytes(&self) -> (r: &[u8; 16])
        ensures
            r@ == self@,
    {
        &self.0
    }

    /// The UUID whose bytes are all zero.
    pub fn nil() -> (r: Self)
        ensures
            r@ == Seq::new(16, |i: int| 0u8),
    {
        let r = Uuid([0u8; 16]);
        assert(r@ =~= Seq::new(16, |i: int| 0u8));
        r
    }

    /// The hyphenated lowercase hexadecimal form.
    pub fn to_hyphenated_string(&self) -> (s: String)
        ensures
            s@ == hyphenated(self@),
    {
        let mut chars: Vec<char> = Vec::new();
        let mut i: usize = 0;
        while i < 16
            invariant
                i <= 16,
                self@.len() == 16,
                chars@ + hyphenated_from(self@, i as int) == hyphenated(self@),
            decreases 16 - i,
        {
            let b = self.0[i];
            assert(b >> 4u8 < 16 && b & 0x0f < 16) by (bit_vector);
            let ghost before = chars@;
            if i == 4 || i == 6 || i == 8 || i == 10 {
                chars.push('-');
            }
            chars.push(hex_char(b >> 4u8));
            chars.push(hex_char(b & 0x0f));
            proof {
                let digits = seq![hex_digit(b >> 4u8), hex_digit(b & 0x0f)];
                if i == 4 || i == 6 || i == 8 || i == 10 {
                    assert(chars@ =~= before + seq!['-'] + digits);
                    assert(before + (seq!['-'] + digits + hyphenated_from(self@, i + 1)) =~= chars@ + hyphenated_from(self@, i + 1));
                } else {
                    assert(chars@ =~= before + digits);
                    assert(before + (digits + hyphenated_from(self@, i + 1)) =~= chars@ + hyphenated_from(self@, i + 1));
                }
            }
            i = i + 1;
        }
        assert(chars@ =~= hyphenated(self@));
        crate::common::text::string_from_chars(chars)
    }
}

/// The lowercase hexadecimal digit for a nibble.
fn hex_char(n: u8) -> (c: char)
    requires
        n < 16,
    ensures
        c == hex_digit(n),
{
    if n < 10 {
        (('0' as u8) + n) as char
    } else {
        (('a' as u8) + (n - 10)) as char
    }
}

impl View for Uuid {
    type V = Seq<u8>;

    closed spec fn view(&self) -> Seq<u8> {
        self.0@
    }
}

impl Uuid {
    /// A UUID has sixteen bytes.
    pub proof fn lemma_len(&self)
        ensures
            self@.len() == 16,
    {
    }
}

impl Model for Uuid {
    type Abstract = Seq<u8>;

    open spec fn model(&self) -> Seq<u8> {
        self@
    }
}

impl Serialize for Uuid {
    open spec fn spec_serialize(v: Seq<u8>) -> Result<Seq<u8>, ser::Error> {
        Ok(v)
    }

    fn serialize(&self, writer: &mut Vec<u8>) -> (r: Result<(), ser::Error>) {
        let bytes = self.0.as_slice();
        writer.extend_from_slice(bytes);
        assert(writer@ =~= old(writer)@ + self@);
        Ok(())
    }
}

impl Deserialize for Uuid {
    open spec fn spec_accepts(input: Seq<u8>) -> bool {
        true
    }

    open spec fn spec_deserialize(input: Seq<u8>) -> Result<(Seq<u8>, nat), de::Error> {
        if input.len() < 16 {
            Err(de::Error::Io(IoError::UnexpectedEof))
        } else {
            Ok((input.take(16), 16))
        }
    }

    fn deserialize(reader: &mut Reader) -> (r: Result<Self, de::Error>) {
        proof {
            lemma_suffix_refl(reader@);
        }
        let bytes = match reader.read_exact(16) {
            Some(b) => b,
            None => return Err(de::Error::Io(IoError::UnexpectedEof)),
        };
        let mut buffer = [0u8; 16];
        let mut i: usize = 0;
        while i < 16
            invariant
                i <= 16,
                bytes@.len() == 16,
                forall|j: int| 0 <= j < i ==> buffer@[j] == bytes@[j],
            decreases 16 - i,
        {
            buffer[i] = bytes[i];
            i = i + 1;
        }
        assert(buffer@ =~= bytes@);
        Ok(Uuid(buffer))
    }
}

impl Codec for Uuid {
    open spec fn spec_wf(v: Seq<u8>) -> bool {
        v.len() == 16
    }

    proof fn lemma_roundtrip(v: Seq<u8>, rest: Seq<u8>) {
        assert((v + rest).take(16) =~= v);
    }
}

} // verus!
