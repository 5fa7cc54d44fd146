//! A fixed-capacity text buffer that lives inside its owner.

use vstd::prelude::*;
use vstd::utf8::{decode_utf8, valid_utf8, valid_utf8_concat, encode_utf8_decode_utf8, encode_utf8_valid_utf8};
use vstd::string::StringSliceAdditionalSpecFns;
use crate::codec::str_from_utf8;

verus! {

/// The text would not fit in what is left of the buffer.
#[derive(Debug, Clone, Copy, PartialEq, Eq, Structural)]
pub struct BufferFull;

/// Up to `N` bytes of UTF-8 text; the bytes past the text are unused.
#[derive(Debug)]
pub struct StackBuffer<const N: usize> {
    pub buf: [u8; N],
    pos: usize,
}

impl<const N: usize> StackBuffer<N> {
    /// The bytes of the text.
    pub closed spec fn content(&self) -> Seq<u8> {
        self.buf@.subrange(0, self.pos as int)
    }

    /// Every byte of the buffer, the text's and the unused ones.
    pub closed spec fn bytes(&self) -> Seq<u8> {
        self.buf@
    }

    /// The text fits the buffer and is UTF-8.
    pub closed spec fn wf(&self) -> bool {
        self.pos <= N && valid_utf8(self.content())
    }

    /// An empty buffer, all zero.
    pub fn new() -> (r: Self)
        ensures
            r.wf(),
            r.content() == Seq::<u8>::empty(),
            forall|i: int| 0 <= i < N ==> r.bytes()[i] == 0,
    {
        let r = StackBuffer { buf: [0u8; N], pos: 0 };
        assert(r.content() =~= Seq::<u8>::empty());
        r
    }

    /// The text.
    pub fn as_str(&self) -> (r: &str)
        requires
            self.wf(),
        ensures
            r.spec_bytes() == self.content(),
            r@ == decode_utf8(self.content()),
    {
        let bytes = vstd::slice::slice_subrange(self.buf.as_slice(), 0, self.pos);
        match str_from_utf8(bytes) {
            Some(s) => {
                proof {
                    encode_utf8_decode_utf8(s@);
                }
                s
            },
            None => {
                assert(false);
                ""
            },
        }
    }

    /// Empties the buffer and zeroes every byte.
    pub fn clear(&mut self)
        ensures
            final(self).wf(),
            final(self).content() == Seq::<u8>::empty(),
            forall|i: int| 0 <= i < N ==> final(self).bytes()[i] == 0,
    {
        let mut i: usize = 0;
        while i < N
            invariant
                i <= N,
                forall|j: int| 0 <= j < i ==> self.buf@[j] == 0,
            decreases N - i,
        {
            self.buf[i] = 0;
            i = i + 1;
        }
        self.pos = 0;
        assert(self.content() =~= Seq::<u8>::empty());
    }

    /// Appends `s` where it fits; where it does not, fails and changes
    /// nothing.
    pub fn write_str(&mut self, s: &str) -> (r: Result<(), BufferFull>)
        requires
            old(self).wf(),
        ensures
            final(self).wf(),
            r is Ok <==> old(self).content().len() + s.spec_bytes().len() <= N,
            r is Ok ==> final(self).content() == old(self).content() + s.spec_bytes(),
            r is Err ==> final(self).content() == old(self).content(),
    {
        let bytes = s.as_bytes();
        if bytes.len() > N - self.pos {
            return Err(BufferFull);
        }
        let ghost before = self.content();
        let start = self.pos;
        let mut i: usize = 0;
        while i < bytes.len()
            invariant
                start <= N,
                bytes@.len() <= N - start,
                i <= bytes@.len(),
                self.pos == start,
                before == self.buf@.subrange(0, start as int),
                forall|j: int| 0 <= j < i ==> self.buf@[start + j] == bytes@[j],
            decreases bytes@.len() - i,
        {
            self.buf[start + i] = bytes[i];
            i = i + 1;
        }
        self.pos = start + bytes.len();
        assert(self.content() =~= before + bytes@);
        proof {
            encode_utf8_valid_utf8(s@);
            valid_utf8_concat(before, bytes@);
        }
        Ok(())
    }
}

} // verus!
