//! The byte stream that the codecs read from and write to.

use crate::errors::Error;
use crate::io::wire::{nul_from, overwrite};
use vstd::prelude::*;
use vstd::slice::slice_subrange;
use vstd::slice::slice_to_vec;

verus! {

/// A stream with a cursor that can be asked for and set.
///
/// The two spec functions are the whole state of a stream as the codecs see
/// it; every contract of the reading and writing traits is stated over them.
pub trait SeekRoseExt {
    /// All the bytes of the stream, from its start.
    spec fn stream(&self) -> Seq<u8>;

    /// The offset, from the start, of the next byte to be read or written.
    spec fn offset(&self) -> nat;

    /// The cursor never stands past the end of the stream.
    proof fn lemma_offset_in_stream(&self)
        ensures
            self.offset() <= self.stream().len(),
    ;

    /// The current offset.
    fn stream_position(&self) -> (pos: u64)
        ensures
            pos == self.offset(),
    ;

    /// Moves the cursor to `pos`, counted from the start. An offset after
    /// the end of the stream is refused, and the cursor then stands at the
    /// end.
    fn seek(&mut self, pos: u64) -> (r: Result<u64, Error>)
        ensures
            final(self).stream() == old(self).stream(),
            pos <= old(self).stream().len() ==> r == Ok::<u64, Error>(pos) && final(self).offset()
                == pos,
            pos > old(self).stream().len() ==> r == Err::<u64, Error>(Error::UnexpectedEof)
                && final(self).offset() == old(self).stream().len(),
    ;
}

/// A stream held in memory, with a cursor for reading and for writing.
pub struct ByteCursor {
    data: Vec<u8>,
    pos: usize,
}

impl ByteCursor {
    #[verifier::type_invariant]
    spec fn within(self) -> bool {
        self.pos <= self.data@.len()
    }

    /// The bytes held.
    pub closed spec fn bytes(&self) -> Seq<u8> {
        self.data@
    }

    /// Where the cursor stands: never past the end of the bytes.
    pub closed spec fn at(&self) -> nat {
        if self.pos <= self.data@.len() {
            self.pos as nat
        } else {
            self.data@.len()
        }
    }

    /// The cursor stands within the bytes or at their end.
    pub proof fn lemma_at_in_bytes(&self)
        ensures
            self.at() <= self.bytes().len(),
    {
    }

    /// A cursor at the start of `data`.
    pub fn new(data: Vec<u8>) -> (c: ByteCursor)
        ensures
            c.bytes() == data@,
            c.at() == 0,
    {
        ByteCursor { data, pos: 0 }
    }

    /// Where the cursor stands.
    pub fn position(&self) -> (pos: u64)
        ensures
            pos == self.at(),
            self.at() <= self.bytes().len(),
    {
        proof {
            use_type_invariant(self);
        }
        self.pos as u64
    }

    /// Moves the cursor to `pos` where the stream reaches that far, and says
    /// whether it did.
    pub fn set_position(&mut self, pos: u64) -> (moved: bool)
        ensures
            final(self).bytes() == old(self).bytes(),
            moved == (pos <= old(self).bytes().len()),
            moved ==> final(self).at() == pos,
            !moved ==> final(self).at() == old(self).at(),
    {
        if pos <= self.data.len() as u64 {
            self.pos = pos as usize;
            true
        } else {
            false
        }
    }

    /// The bytes held.
    pub fn get_ref(&self) -> (data: &Vec<u8>)
        ensures
            data@ == self.bytes(),
    {
        &self.data
    }

    /// Gives the bytes up.
    pub fn into_inner(self) -> (data: Vec<u8>)
        ensures
            data@ == self.bytes(),
    {
        self.data
    }

    /// Takes `n` bytes at the cursor, or, where fewer are left, none: the
    /// cursor then moves to the end.
    pub(crate) fn take(&mut self, n: u64) -> (r: Option<Vec<u8>>)
        ensures
            final(self).bytes() == old(self).bytes(),
            ({
                let bytes = old(self).bytes();
                let start = old(self).at();
                match r {
                    Some(buf) => {
                        &&& start + n <= bytes.len()
                        &&& buf@ == bytes.subrange(start as int, start + n)
                        &&& final(self).at() == start + n
                    },
                    None => start + n > bytes.len() && final(self).at() == bytes.len(),
                }
            }),
    {
        proof {
            use_type_invariant(&*self);
        }
        let len = self.data.len();
        if n <= (len - self.pos) as u64 {
            let end = self.pos + n as usize;
            let buf = slice_to_vec(slice_subrange(self.data.as_slice(), self.pos, end));
            self.pos = end;
            Some(buf)
        } else {
            self.pos = len;
            None
        }
    }

    /// Takes the bytes from the cursor up to the first zero byte, which is
    /// consumed and not returned. Where no zero byte follows, takes none:
    /// the cursor then moves to the end.
    pub(crate) fn take_until_nul(&mut self) -> (r: Option<Vec<u8>>)
        ensures
            final(self).bytes() == old(self).bytes(),
            ({
                let bytes = old(self).bytes();
                let start = old(self).at();
                let end = nul_from(bytes, start);
                match r {
                    Some(buf) => {
                        &&& end < bytes.len()
                        &&& buf@ == bytes.subrange(start as int, end as int)
                        &&& final(self).at() == end + 1
                    },
                    None => end >= bytes.len() && final(self).at() == bytes.len(),
                }
            }),
    {
        proof {
            use_type_invariant(&*self);
        }
        let len = self.data.len();
        let start = self.pos;
        let mut end = start;
        while end < len && self.data[end] != 0
            invariant
                start <= end <= len,
                len == self.data@.len(),
                self.pos == start,
                self.data@ == old(self).data@,
                nul_from(self.data@, start as nat) == nul_from(self.data@, end as nat),
            decreases len - end,
        {
            end += 1;
        }
        if end < len {
            let buf = slice_to_vec(slice_subrange(self.data.as_slice(), start, end));
            self.pos = end + 1;
            Some(buf)
        } else {
            self.pos = len;
            None
        }
    }

    /// Puts `buf` at the cursor, over what is there and past the end where
    /// it is longer, and moves the cursor after it.
    pub(crate) fn put(&mut self, buf: &[u8])
        ensures
            final(self).bytes() == overwrite(old(self).bytes(), old(self).at(), buf@),
            final(self).at() == old(self).at() + buf@.len(),
    {
        proof {
            use_type_invariant(&*self);
            reveal(overwrite);
        }
        // The bytes leave `self` while they grow, so that the cursor of
        // `self` is within its bytes at every step.
        let start = self.pos;
        let mut data: Vec<u8> = Vec::new();
        self.pos = 0;
        core::mem::swap(&mut self.data, &mut data);
        let n = buf.len();
        let mut i: usize = 0;
        while i < n
            invariant
                i <= n == buf@.len(),
                start + i <= data@.len(),
                data@ == overwrite(old(self).bytes(), start as nat, buf@.take(i as int)),
            decreases n - i,
        {
            let len = data.len();
            if i < len - start {
                data.set(start + i, buf[i]);
            } else {
                data.push(buf[i]);
            }
            proof {
                reveal(overwrite);
                assert(data@ =~= overwrite(old(self).bytes(), start as nat, buf@.take(i + 1)));
            }
            i += 1;
        }
        let len = data.len();
        proof {
            assert(buf@.take(n as int) =~= buf@);
            assert(start + n <= len);
        }
        core::mem::swap(&mut self.data, &mut data);
        self.pos = start + n;
    }
}

impl SeekRoseExt for ByteCursor {
    open spec fn stream(&self) -> Seq<u8> {
        self.bytes()
    }

    open spec fn offset(&self) -> nat {
        self.at()
    }

    proof fn lemma_offset_in_stream(&self) {
        self.lemma_at_in_bytes();
    }

    fn stream_position(&self) -> (pos: u64) {
        self.position()
    }

    fn seek(&mut self, pos: u64) -> (r: Result<u64, Error>) {
        if self.set_position(pos) {
            Ok(pos)
        } else {
            let len = self.data.len();
            self.pos = len;
            Err(Error::UnexpectedEof)
        }
    }
}

} // verus!
