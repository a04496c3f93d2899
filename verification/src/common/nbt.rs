use vstd::prelude::*;

use crate::common::asset_types::{
    correct_format, lemma_resource_location_roundtrip, split_at_colon, ResourceLocation,
};
use crate::protocol::data_types::num_types::{be_u32, from_be_u32};
use crate::protocol::data_types::uuid::{parse_str, uuid_parsed, Uuid};


verus! {

/// A value in the named binary tag format, by the format's thirteen kinds.
///
/// The two floating-point kinds hold the IEEE 754 bit pattern of their
/// number; a compound holds its named children in order.
#[derive(Debug, PartialEq)]
pub enum NbtTag {
    End,
    Byte(i8),
    Short(i16),
    Int(i32),
    Long(i64),
    Float(u32),
    Double(u64),
    ByteArray(Vec<u8>),
    String(String),
    List(Vec<NbtTag>),
    Compound(Vec<(String, NbtTag)>),
    IntArray(Vec<i32>),
    LongArray(Vec<i64>),
}

/// A value that can be written as a tag.
pub trait IntoNbtTag: Sized {
    /// Whether `tag` is the tag that `self` is written as.
    spec fn written_as(&self, tag: NbtTag) -> bool;

    fn into_nbt_tag(self) -> (tag: NbtTag)
        ensures
            self.written_as(tag),
    ;
}

/// A value that can be read back from a tag.
pub trait FromNbtTag: Sized {
    /// Whether a value can be read from `tag`.
    spec fn readable_from(tag: NbtTag) -> bool;

    /// Whether `value` is the value read from `tag`.
    spec fn read_as(tag: NbtTag, value: Self) -> bool;

    fn from_nbt_tag(tag: NbtTag) -> (r: Option<Self>)
        ensures
            r is Some <==> Self::readable_from(tag),
            r matches Some(v) ==> Self::read_as(tag, v),
    ;
}

impl IntoNbtTag for String {
    open spec fn written_as(&self, tag: NbtTag) -> bool {
        tag matches NbtTag::String(s) && s@ == self@
    }

    fn into_nbt_tag(self) -> (tag: NbtTag) {
        NbtTag::String(self)
    }
}

impl FromNbtTag for String {
    open spec fn readable_from(tag: NbtTag) -> bool {
        tag is String
    }

    open spec fn read_as(tag: NbtTag, value: String) -> bool {
        tag matches NbtTag::String(s) && s@ == value@
    }

    fn from_nbt_tag(tag: NbtTag) -> (r: Option<String>) {
        match tag {
            NbtTag::String(content) => Some(content),
            _ => None,
        }
    }
}

impl IntoNbtTag for &'static str {
    open spec fn written_as(&self, tag: NbtTag) -> bool {
        tag matches NbtTag::String(s) && s@ == self@
    }

    fn into_nbt_tag(self) -> (tag: NbtTag) {
        NbtTag::String(self.to_owned())
    }
}

impl IntoNbtTag for bool {
    open spec fn written_as(&self, tag: NbtTag) -> bool {
        tag == NbtTag::Byte(if *self { 1i8 } else { 0i8 })
    }

    fn into_nbt_tag(self) -> (tag: NbtTag) {
        NbtTag::Byte(
            match self {
                true => 1,
                false => 0,
            },
        )
    }
}

impl FromNbtTag for bool {
    open spec fn readable_from(tag: NbtTag) -> bool {
        tag == NbtTag::Byte(1) || tag == NbtTag::Byte(0)
    }

    open spec fn read_as(tag: NbtTag, value: bool) -> bool {
        tag == NbtTag::Byte(if value { 1i8 } else { 0i8 })
    }

    fn from_nbt_tag(tag: NbtTag) -> (r: Option<bool>) {
        match tag {
            NbtTag::Byte(1) => Some(true),
            NbtTag::Byte(0) => Some(false),
            _ => None,
        }
    }
}

impl IntoNbtTag for u8 {
    open spec fn written_as(&self, tag: NbtTag) -> bool {
        tag == NbtTag::Byte(*self as i8)
    }

    fn into_nbt_tag(self) -> (tag: NbtTag) {
        NbtTag::Byte(self as i8)
    }
}

impl FromNbtTag for u8 {
    open spec fn readable_from(tag: NbtTag) -> bool {
        tag is Byte
    }

    open spec fn read_as(tag: NbtTag, value: u8) -> bool {
        tag matches NbtTag::Byte(b) && value == b as u8
    }

    fn from_nbt_tag(tag: NbtTag) -> (r: Option<u8>) {
        match tag {
            NbtTag::Byte(byte) => Some(byte as u8),
            _ => None,
        }
    }
}

impl IntoNbtTag for i32 {
    open spec fn written_as(&self, tag: NbtTag) -> bool {
        tag == NbtTag::Int(*self)
    }

    fn into_nbt_tag(self) -> (tag: NbtTag) {
        NbtTag::Int(self)
    }
}

impl FromNbtTag for i32 {
    open spec fn readable_from(tag: NbtTag) -> bool {
        tag is Int
    }

    open spec fn read_as(tag: NbtTag, value: i32) -> bool {
        tag == NbtTag::Int(value)
    }

    fn from_nbt_tag(tag: NbtTag) -> (r: Option<i32>) {
        match tag {
            NbtTag::Int(integer) => Some(integer),
            _ => None,
        }
    }
}

impl<T: IntoNbtTag> IntoNbtTag for Vec<T> {
    open spec fn written_as(&self, tag: NbtTag) -> bool {
        &&& tag matches NbtTag::List(items)
        &&& items@.len() == self@.len()
        &&& forall|i: int| 0 <= i < self@.len() ==> #[trigger] self@[i].written_as(items@[i])
    }

    fn into_nbt_tag(self) -> (tag: NbtTag) {
        let ghost input = self@;
        let mut items: Vec<NbtTag> = Vec::new();
        for item in it: self.into_iter()
            invariant
                it.seq() == input,
                items@.len() == it.index(),
                forall|i: int| 0 <= i < it.index() ==> #[trigger] input[i].written_as(items@[i]),
        {
            items.push(item.into_nbt_tag());
        }
        NbtTag::List(items)
    }
}

impl<T: FromNbtTag> FromNbtTag for Vec<T> {
    open spec fn readable_from(tag: NbtTag) -> bool {
        &&& tag matches NbtTag::List(items)
        &&& forall|i: int| 0 <= i < items@.len() ==> T::readable_from(#[trigger] items@[i])
    }

    open spec fn read_as(tag: NbtTag, value: Vec<T>) -> bool {
        &&& tag matches NbtTag::List(items)
        &&& value@.len() == items@.len()
        &&& forall|i: int| 0 <= i < items@.len() ==> #[trigger] T::read_as(items@[i], value@[i])
    }

    fn from_nbt_tag(tag: NbtTag) -> (r: Option<Vec<T>>) {
        match tag {
            NbtTag::List(list) => {
                let ghost input = list@;
                let mut values: Vec<T> = Vec::new();
                for item in it: list.into_iter()
                    invariant
                        it.seq() == input,
                        tag matches NbtTag::List(l) && l@ == input,
                        values@.len() == it.index(),
                        forall|i: int|
                            0 <= i < it.index() ==> T::readable_from(#[trigger] input[i])
                                && T::read_as(input[i], values@[i]),
                {
                    match T::from_nbt_tag(item) {
                        Some(value) => values.push(value),
                        None => {
                            assert(!T::readable_from(input[it.index() as int]));
                            return None;
                        },
                    }
                }
                Some(values)
            },
            _ => None,
        }
    }
}

/// The four big-endian 32-bit words of a UUID's sixteen bytes, as signed
/// integers.
pub open spec fn uuid_words(b: Seq<u8>) -> Seq<i32> {
    seq![
        from_be_u32(b.subrange(0, 4)) as i32,
        from_be_u32(b.subrange(4, 8)) as i32,
        from_be_u32(b.subrange(8, 12)) as i32,
        from_be_u32(b.subrange(12, 16)) as i32,
    ]
}

/// The sixteen bytes of four 32-bit words, each big-endian.
pub open spec fn words_bytes(w: Seq<i32>) -> Seq<u8> {
    be_u32(w[0] as u32) + be_u32(w[1] as u32) + be_u32(w[2] as u32) + be_u32(w[3] as u32)
}

/// The big-endian 32-bit word at `at` in `b`, as a signed integer.
fn word_at(b: &[u8; 16], at: usize) -> (w: i32)
    requires
        at + 4 <= 16,
    ensures
        w == from_be_u32(b@.subrange(at as int, at + 4)) as i32,
{
    let s = Ghost(b@.subrange(at as int, at + 4));
    assert(s@[0] == b@[at as int] && s@[1] == b@[at + 1] && s@[2] == b@[at + 2] && s@[3] == b@[at
        + 3]);
    let v: u32 = ((b[at] as u32) << 24u32) | ((b[at + 1] as u32) << 16u32) | ((b[at + 2] as u32)
        << 8u32) | (b[at + 3] as u32);
    v as i32
}

/// Writes the big-endian bytes of `w` at `at` in `b`.
fn put_word(b: &mut [u8; 16], at: usize, w: i32)
    requires
        at + 4 <= 16,
    ensures
        final(b)@.subrange(at as int, at + 4) == be_u32(w as u32),
        forall|i: int| 0 <= i < 16 && !(at <= i < at + 4) ==> final(b)@[i] == old(b)@[i],
{
    let v = w as u32;
    b[at] = (v >> 24u32) as u8;
    b[at + 1] = (v >> 16u32) as u8;
    b[at + 2] = (v >> 8u32) as u8;
    b[at + 3] = v as u8;
    assert(b@.subrange(at as int, at + 4) =~= be_u32(w as u32));
}

/// Writing a word's big-endian bytes back gives the bytes it was read from.
proof fn lemma_word_bytes(s: Seq<u8>)
    requires
        s.len() == 4,
    ensures
        be_u32((from_be_u32(s) as i32) as u32) == s,
{
    let (a, b, c, d) = (s[0], s[1], s[2], s[3]);
    let v = ((a as u32) << 24u32) | ((b as u32) << 16u32) | ((c as u32) << 8u32) | (d as u32);
    assert(v == from_be_u32(s));
    assert(((v as i32) as u32) == v) by (bit_vector);
    assert((v >> 24u32) as u8 == a && (v >> 16u32) as u8 == b && (v >> 8u32) as u8 == c && v as u8
        == d) by (bit_vector)
        requires
            v == ((a as u32) << 24u32) | ((b as u32) << 16u32) | ((c as u32) << 8u32) | (d as u32),
    ;
    assert(be_u32(v) =~= s);
}

impl IntoNbtTag for Uuid {
    /// A UUID is written as an array of its four big-endian 32-bit words.
    open spec fn written_as(&self, tag: NbtTag) -> bool {
        tag matches NbtTag::IntArray(ints) && ints@ == uuid_words(self@)
    }

    fn into_nbt_tag(self) -> (tag: NbtTag) {
        let b = self.as_bytes();
        let mut ints: Vec<i32> = Vec::new();
        ints.push(word_at(b, 0));
        ints.push(word_at(b, 4));
        ints.push(word_at(b, 8));
        ints.push(word_at(b, 12));
        assert(ints@ =~= uuid_words(self@));
        NbtTag::IntArray(ints)
    }
}

impl FromNbtTag for Uuid {
    /// A UUID is read from an array of exactly four integers, or from text
    /// that `uuid` parses.
    open spec fn readable_from(tag: NbtTag) -> bool {
        match tag {
            NbtTag::IntArray(ints) => ints@.len() == 4,
            NbtTag::String(s) => uuid_parsed(s@) is Some,
            _ => false,
        }
    }

    open spec fn read_as(tag: NbtTag, value: Uuid) -> bool {
        match tag {
            NbtTag::IntArray(ints) => value@ == words_bytes(ints@),
            NbtTag::String(s) => uuid_parsed(s@) == Some(value@),
            _ => false,
        }
    }

    fn from_nbt_tag(tag: NbtTag) -> (r: Option<Uuid>) {
        match tag {
            NbtTag::IntArray(int_array) => {
                if int_array.len() != 4 {
                    return None;
                }
                let mut bytes = [0u8; 16];
                put_word(&mut bytes, 0, int_array[0]);
                put_word(&mut bytes, 4, int_array[1]);
                put_word(&mut bytes, 8, int_array[2]);
                put_word(&mut bytes, 12, int_array[3]);
                assert(bytes@ =~= words_bytes(int_array@)) by {
                    assert(bytes@ =~= bytes@.subrange(0, 4) + bytes@.subrange(4, 8) + bytes@.subrange(
                        8,
                        12,
                    ) + bytes@.subrange(12, 16));
                }
                Some(Uuid::from_bytes(bytes))
            },
            NbtTag::String(stringified) => match parse_str(stringified.as_str()) {
                Some(bytes) => Some(Uuid::from_bytes(bytes)),
                None => None,
            },
            _ => None,
        }
    }
}

impl IntoNbtTag for ResourceLocation {
    /// A location is written as its text, `namespace:identifier`.
    open spec fn written_as(&self, tag: NbtTag) -> bool {
        tag matches NbtTag::String(s) && s@ == self.namespace@ + seq![':'] + self.identifier@
    }

    fn into_nbt_tag(self) -> (tag: NbtTag) {
        NbtTag::String(self.as_string())
    }
}

impl FromNbtTag for ResourceLocation {
    open spec fn readable_from(tag: NbtTag) -> bool {
        &&& tag matches NbtTag::String(s)
        &&& split_at_colon(s@) matches Some((ns, id))
        &&& correct_format(ns)
        &&& correct_format(id)
    }

    open spec fn read_as(tag: NbtTag, value: ResourceLocation) -> bool {
        tag matches NbtTag::String(s) && split_at_colon(s@) == Some(
            (value.namespace@, value.identifier@),
        )
    }

    fn from_nbt_tag(tag: NbtTag) -> (r: Option<ResourceLocation>) {
        match tag {
            NbtTag::String(resource) => match ResourceLocation::try_from(resource) {
                Ok(location) => Some(location),
                Err(()) => None,
            },
            _ => None,
        }
    }
}

/// A type whose values read back from the tags they are written as.
pub trait NbtRoundtrip: IntoNbtTag + FromNbtTag {
    /// Whether `x` is a value that its tag stands for; every value but a
    /// location whose parts break the location format.
    spec fn representable(x: Self) -> bool;

    /// Whether `a` and `b` stand for the same value.
    spec fn same_value(a: Self, b: Self) -> bool;

    /// The tag that a representable value is written as can be read, and it
    /// reads back as that value.
    proof fn lemma_nbt_roundtrip(x: Self, tag: NbtTag, y: Self)
        requires
            Self::representable(x),
            x.written_as(tag),
        ensures
            Self::readable_from(tag),
            Self::read_as(tag, y) ==> Self::same_value(x, y),
    ;
}

impl NbtRoundtrip for String {
    open spec fn representable(x: String) -> bool {
        true
    }

    open spec fn same_value(a: String, b: String) -> bool {
        a@ == b@
    }

    proof fn lemma_nbt_roundtrip(x: String, tag: NbtTag, y: String) {
    }
}

impl NbtRoundtrip for bool {
    open spec fn representable(x: bool) -> bool {
        true
    }

    open spec fn same_value(a: bool, b: bool) -> bool {
        a == b
    }

    proof fn lemma_nbt_roundtrip(x: bool, tag: NbtTag, y: bool) {
    }
}

impl NbtRoundtrip for u8 {
    open spec fn representable(x: u8) -> bool {
        true
    }

    open spec fn same_value(a: u8, b: u8) -> bool {
        a == b
    }

    proof fn lemma_nbt_roundtrip(x: u8, tag: NbtTag, y: u8) {
        assert((x as i8) as u8 == x) by (bit_vector);
    }
}

impl NbtRoundtrip for i32 {
    open spec fn representable(x: i32) -> bool {
        true
    }

    open spec fn same_value(a: i32, b: i32) -> bool {
        a == b
    }

    proof fn lemma_nbt_roundtrip(x: i32, tag: NbtTag, y: i32) {
    }
}

impl NbtRoundtrip for Uuid {
    open spec fn representable(x: Uuid) -> bool {
        true
    }

    open spec fn same_value(a: Uuid, b: Uuid) -> bool {
        a@ == b@
    }

    proof fn lemma_nbt_roundtrip(x: Uuid, tag: NbtTag, y: Uuid) {
        let b = x@;
        x.lemma_len();
        lemma_word_bytes(b.subrange(0, 4));
        lemma_word_bytes(b.subrange(4, 8));
        lemma_word_bytes(b.subrange(8, 12));
        lemma_word_bytes(b.subrange(12, 16));
        let w = uuid_words(b);
        assert(words_bytes(w) =~= b);
    }
}

impl NbtRoundtrip for ResourceLocation {
    open spec fn representable(x: ResourceLocation) -> bool {
        correct_format(x.namespace@) && correct_format(x.identifier@)
    }

    open spec fn same_value(a: ResourceLocation, b: ResourceLocation) -> bool {
        a.namespace@ == b.namespace@ && a.identifier@ == b.identifier@
    }

    proof fn lemma_nbt_roundtrip(x: ResourceLocation, tag: NbtTag, y: ResourceLocation) {
        lemma_resource_location_roundtrip(x.namespace@, x.identifier@);
    }
}

impl<T: NbtRoundtrip> NbtRoundtrip for Vec<T> {
    open spec fn representable(x: Vec<T>) -> bool {
        forall|i: int| 0 <= i < x@.len() ==> T::representable(#[trigger] x@[i])
    }

    open spec fn same_value(a: Vec<T>, b: Vec<T>) -> bool {
        &&& a@.len() == b@.len()
        &&& forall|i: int| 0 <= i < a@.len() ==> T::same_value(#[trigger] a@[i], b@[i])
    }

    proof fn lemma_nbt_roundtrip(x: Vec<T>, tag: NbtTag, y: Vec<T>) {
        let items = tag->List_0;
        assert forall|i: int| 0 <= i < items@.len() implies T::readable_from(#[trigger] items@[i]) by {
            T::lemma_nbt_roundtrip(x@[i], items@[i], x@[i]);
        }
        if Self::read_as(tag, y) {
            assert forall|i: int| 0 <= i < x@.len() implies T::same_value(#[trigger] x@[i], y@[i]) by {
                T::lemma_nbt_roundtrip(x@[i], items@[i], y@[i]);
            }
        }
    }
}

} // verus!
