use vstd::prelude::*;

verus! {

/// The mathematical value that a protocol type stands for.
///
/// Serialization and deserialization are specified over this value, so that
/// types holding strings or other opaque data can still be described exactly.
pub trait Model {
    type Abstract;

    spec fn model(&self) -> Self::Abstract;
}

impl Model for u8 {
    type Abstract = u8;

    open spec fn model(&self) -> u8 {
        *self
    }
}

impl Model for i8 {
    type Abstract = i8;

    open spec fn model(&self) -> i8 {
        *self
    }
}

impl Model for u16 {
    type Abstract = u16;

    open spec fn model(&self) -> u16 {
        *self
    }
}

impl Model for i16 {
    type Abstract = i16;

    open spec fn model(&self) -> i16 {
        *self
    }
}

impl Model for u32 {
    type Abstract = u32;

    open spec fn model(&self) -> u32 {
        *self
    }
}

impl Model for u64 {
    type Abstract = u64;

    open spec fn model(&self) -> u64 {
        *self
    }
}

impl Model for i32 {
    type Abstract = i32;

    open spec fn model(&self) -> i32 {
        *self
    }
}

impl Model for i64 {
    type Abstract = i64;

    open spec fn model(&self) -> i64 {
        *self
    }
}

impl Model for bool {
    type Abstract = bool;

    open spec fn model(&self) -> bool {
        *self
    }
}

impl<T: Model> Model for Option<T> {
    type Abstract = Option<T::Abstract>;

    open spec fn model(&self) -> Option<T::Abstract> {
        match self {
            Some(x) => Some(x.model()),
            None => None,
        }
    }
}

impl<T: Model> Model for Vec<T> {
    type Abstract = Seq<T::Abstract>;

    open spec fn model(&self) -> Seq<T::Abstract> {
        self@.map_values(|x: T| x.model())
    }
}

} // verus!
