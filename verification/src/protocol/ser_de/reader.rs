use vstd::prelude::*;

verus! {

/// An in-memory source of bytes that deserialization reads from the front.
///
/// Its view is the sequence of bytes not read yet.
pub struct Reader {
    data: Vec<u8>,
    pos: usize,
}

impl Reader {
    #[verifier::type_invariant]
    spec fn inv(self) -> bool {
        self.pos <= self.data.len()
    }

    /// A reader over `data`, positioned at its first byte.
    pub fn new(data: Vec<u8>) -> (r: Self)
        ensures
            r@ == data@,
    {
        let r = Reader { data, pos: 0 };
        assert(r.data@.subrange(0, r.data@.len() as int) =~= r.data@);
        r
    }

    /// The number of bytes not read yet.
    pub fn remaining_len(&self) -> (n: usize)
        ensures
            n == self@.len(),
    {
        proof {
            use_type_invariant(self);
        }
        self.data.len() - self.pos
    }

    /// Whether every byte has been read.
    pub fn is_empty(&self) -> (b: bool)
        ensures
            b == (self@.len() == 0),
    {
        self.remaining_len() == 0
    }

    /// A copy of the bytes not read yet.
    pub fn remaining(&self) -> (v: Vec<u8>)
        ensures
            v@ == self@,
    {
        proof {
            use_type_invariant(self);
        }
        let mut v: Vec<u8> = Vec::new();
        let mut i: usize = self.pos;
        while i < self.data.len()
            invariant
                self.pos <= i <= self.data.len(),
                v@ == self.data@.subrange(self.pos as int, i as int),
            decreases self.data.len() - i,
        {
            v.push(self.data[i]);
            i += 1;
            assert(v@ =~= self.data@.subrange(self.pos as int, i as int));
        }
        v
    }

    /// Reads one byte, or nothing when none is left.
    pub fn read_byte(&mut self) -> (b: Option<u8>)
        ensures
            old(self)@.len() > 0 ==> b == Some(old(self)@[0]) && final(self)@ == old(self)@.skip(1),
            old(self)@.len() == 0 ==> b is None && final(self)@ == old(self)@,
    {
        proof {
            use_type_invariant(&*self);
        }
        if self.pos < self.data.len() {
            let b = self.data[self.pos];
            self.pos = self.pos + 1;
            assert(self@ =~= old(self)@.skip(1));
            Some(b)
        } else {
            None
        }
    }

    /// Reads exactly `n` bytes, or nothing (and moves not) when fewer are left.
    pub fn read_exact(&mut self, n: usize) -> (bytes: Option<Vec<u8>>)
        ensures
            n <= old(self)@.len() ==> (bytes matches Some(v) && v@ == old(self)@.take(n as int)
                && final(self)@ == old(self)@.skip(n as int)),
            n > old(self)@.len() ==> bytes is None && final(self)@ == old(self)@,
    {
        proof {
            use_type_invariant(&*self);
        }
        if n > self.data.len() - self.pos {
            return None;
        }
        let start = self.pos;
        let end = self.pos + n;
        let mut v: Vec<u8> = Vec::new();
        let mut i: usize = start;
        while i < end
            invariant
                start <= i <= end <= self.data.len(),
                v@ == self.data@.subrange(start as int, i as int),
            decreases end - i,
        {
            v.push(self.data[i]);
            i += 1;
            assert(v@ =~= self.data@.subrange(start as int, i as int));
        }
        self.pos = end;
        assert(v@ =~= old(self)@.take(n as int));
        assert(self@ =~= old(self)@.skip(n as int));
        Some(v)
    }

    /// Reads every byte that is left.
    pub fn read_to_end(&mut self) -> (v: Vec<u8>)
        ensures
            v@ == old(self)@,
            final(self)@.len() == 0,
    {
        let v = self.remaining();
        proof {
            use_type_invariant(&*self);
        }
        self.pos = self.data.len();
        v
    }
}

impl View for Reader {
    type V = Seq<u8>;

    closed spec fn view(&self) -> Seq<u8> {
        self.data@.subrange(self.pos as int, self.data@.len() as int)
    }
}

} // verus!
