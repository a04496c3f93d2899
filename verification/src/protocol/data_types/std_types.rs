use vstd::prelude::*;

use crate::protocol::ser_de::codec::Codec;
use crate::protocol::ser_de::de::{self, de_post, Deserialize, IoError};
use crate::protocol::ser_de::model::Model;
use crate::protocol::ser_de::reader::Reader;
use crate::protocol::ser_de::seq_facts::{lemma_skip_concat, lemma_skip_is_suffix, lemma_skip_skip, lemma_suffix_refl, lemma_suffix_trans};
use crate::protocol::ser_de::ser::{self, ser_post, Serialize};

verus! {

impl Serialize for bool {
    open spec fn spec_serialize(v: bool) -> Result<Seq<u8>, ser::Error> {
        Ok(seq![if v { 0x01u8 } else { 0x00u8 }])
    }

    fn serialize(&self, writer: &mut Vec<u8>) -> (r: Result<(), ser::Error>) {
        if *self {
            writer.push(0x01);
        } else {
            writer.push(0x00);
        }
        assert(writer@ =~= old(writer)@ + seq![if *self { 0x01u8 } else { 0x00u8 }]);
        assert(self.model() == *self);
        assert(Self::spec_serialize(*self) == Ok::<Seq<u8>, ser::Error>(seq![if *self { 0x01u8 } else { 0x00u8 }]));
        Ok(())
    }
}

impl Deserialize for bool {
    open spec fn spec_accepts(input: Seq<u8>) -> bool {
        true
    }

    open spec fn spec_deserialize(input: Seq<u8>) -> Result<(bool, nat), de::Error> {
        if input.len() < 1 {
            Err(de::Error::Io(IoError::UnexpectedEof))
        } else if input[0] == 0x00 {
            Ok((false, 1))
        } else if input[0] == 0x01 {
            Ok((true, 1))
        } else {
            Err(de::Error::Syntax)
        }
    }

    fn deserialize(reader: &mut Reader) -> (r: Result<Self, de::Error>)
        ensures
            r matches Err(de::Error::Syntax) ==> final(reader)@ == old(reader)@.skip(1),
            r matches Err(de::Error::Io(_)) ==> final(reader)@ == old(reader)@,
    {
        proof {
            lemma_suffix_refl(reader@);
            if reader@.len() > 0 {
                lemma_skip_is_suffix(reader@, 1);
            }
        }
        match reader.read_byte() {
            None => Err(de::Error::Io(IoError::UnexpectedEof)),
            Some(0x00) => Ok(false),
            Some(0x01) => Ok(true),
            Some(_) => Err(de::Error::Syntax),
        }
    }
}

impl Codec for bool {
    open spec fn spec_wf(v: bool) -> bool {
        true
    }

    proof fn lemma_roundtrip(v: bool, rest: Seq<u8>) {
        let b = seq![if v { 0x01u8 } else { 0x00u8 }];
        assert((b + rest)[0] == b[0]);
    }
}

impl<T: Serialize> Serialize for Option<T> {
    open spec fn spec_serialize(v: Option<T::Abstract>) -> Result<Seq<u8>, ser::Error> {
        match v {
            None => Ok(seq![0x00u8]),
            Some(x) => match T::spec_serialize(x) {
                Ok(b) => Ok(seq![0x01u8] + b),
                Err(e) => Err(e),
            },
        }
    }

    fn serialize(&self, writer: &mut Vec<u8>) -> (r: Result<(), ser::Error>) {
        let has_value = self.is_some();
        let _ = has_value.serialize(writer);
        match self {
            Some(value) => {
                let ghost mid = writer@;
                let r = value.serialize(writer);
                proof {
                    if r is Ok {
                        assert(writer@ =~= old(writer)@ + (seq![0x01u8] + T::spec_serialize(value.model())->Ok_0));
                    } else {
                        assert(old(writer)@.is_prefix_of(writer@)) by {
                            assert(old(writer)@.is_prefix_of(mid));
                            assert(mid.is_prefix_of(writer@));
                            assert forall|i: int| 0 <= i < old(writer)@.len() implies old(writer)@[i] == writer@[i] by {
                                assert(old(writer)@[i] == mid[i]);
                            }
                        }
                    }
                }
                r
            },
            None => Ok(()),
        }
    }
}

impl<T: Deserialize> Deserialize for Option<T> {
    open spec fn spec_accepts(input: Seq<u8>) -> bool {
        match bool::spec_deserialize(input) {
            Ok((true, n)) => T::spec_accepts(input.skip(n as int)),
            _ => true,
        }
    }

    open spec fn spec_deserialize(input: Seq<u8>) -> Result<(Option<T::Abstract>, nat), de::Error> {
        match bool::spec_deserialize(input) {
            Err(e) => Err(e),
            Ok((false, n)) => Ok((None, n)),
            Ok((true, n)) => match T::spec_deserialize(input.skip(n as int)) {
                Ok((v, m)) => Ok((Some(v), n + m)),
                Err(e) => Err(e),
            },
        }
    }

    fn deserialize(reader: &mut Reader) -> (r: Result<Self, de::Error>) {
        let has_value = match bool::deserialize(reader) {
            Ok(b) => b,
            Err(e) => return Err(e),
        };
        if has_value {
            let ghost mid = reader@;
            match T::deserialize(reader) {
                Ok(v) => {
                    proof {
                        let (_, m) = T::spec_deserialize(mid)->Ok_0;
                        lemma_skip_skip(old(reader)@, 1, m as int);
                    }
                    Ok(Some(v))
                },
                Err(e) => {
                    proof {
                        lemma_skip_is_suffix(old(reader)@, 1);
                        lemma_suffix_trans(reader@, mid, old(reader)@);
                    }
                    Err(e)
                },
            }
        } else {
            Ok(None)
        }
    }
}

impl<T: Codec> Codec for Option<T> {
    open spec fn spec_wf(v: Option<T::Abstract>) -> bool {
        match v {
            Some(x) => T::spec_wf(x),
            None => true,
        }
    }

    proof fn lemma_roundtrip(v: Option<T::Abstract>, rest: Seq<u8>) {
        match v {
            None => {
                assert((seq![0x00u8] + rest)[0] == 0x00u8);
            },
            Some(x) => {
                let b = T::spec_serialize(x)->Ok_0;
                T::lemma_roundtrip(x, rest);
                lemma_skip_concat(seq![0x01u8], b, rest);
                assert((seq![0x01u8] + b + rest)[0] == 0x01u8);
            },
        }
    }
}

} // verus!
