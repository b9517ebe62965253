use vstd::prelude::*;

use crate::error::MetaError;

verus! {

/// The largest position a file offset can hold.
pub const MAX_POS: u64 = 0x7fff_ffff_ffff_ffffu64;

/// How many bytes a read of `n` bytes at `pos` returns from a file of `len`
/// bytes: everything that is asked for and present, nothing past the end.
pub open spec fn read_count(len: int, pos: int, n: int) -> int {
    if pos >= len {
        0
    } else if n <= len - pos {
        n
    } else {
        len - pos
    }
}

/// The bytes that a read of `n` bytes at `pos` returns.
pub open spec fn read_bytes(data: Seq<u8>, pos: int, n: int) -> Seq<u8> {
    if pos >= data.len() {
        Seq::empty()
    } else {
        data.subrange(pos, pos + read_count(data.len() as int, pos, n))
    }
}

/// Whether a read of exactly `n` bytes at `pos` succeeds.
pub open spec fn can_read_exact(len: int, pos: int, n: int) -> bool {
    n == 0 || pos + n <= len
}

/// The bytes that a successful read of exactly `n` bytes at `pos` returns.
pub open spec fn exact_bytes(data: Seq<u8>, pos: int, n: int) -> Seq<u8> {
    if n == 0 {
        Seq::empty()
    } else {
        data.subrange(pos, pos + n)
    }
}

/// The position after a read of exactly `n` bytes at `pos`, whether it
/// succeeded or ran into the end of the file.
pub open spec fn pos_after_exact(len: int, pos: int, n: int) -> int {
    if can_read_exact(len, pos, n) {
        pos + n
    } else if pos < len {
        len
    } else {
        pos
    }
}

/// The position after reading everything from `pos` to the end.
pub open spec fn pos_after_all(len: int, pos: int) -> int {
    if pos < len {
        len
    } else {
        pos
    }
}

/// The bytes from `pos` to the end of the file.
pub open spec fn rest_from(data: Seq<u8>, pos: int) -> Seq<u8> {
    if pos < data.len() {
        data.subrange(pos, data.len() as int)
    } else {
        Seq::empty()
    }
}

/// Whether `target` is a position a seek may move to.
pub open spec fn valid_target(target: int) -> bool {
    0 <= target <= MAX_POS
}

/// The limits every reader keeps: a length and position a file offset can
/// hold.
pub open spec fn reader_ok(v: (Seq<u8>, int)) -> bool {
    &&& v.0.len() <= MAX_POS
    &&& 0 <= v.1 <= MAX_POS
}

/// An open file: its bytes and the current position.
///
/// The operations behave as those of a file handle do: a read returns what
/// is present from the position on, a read of an exact length fails at the
/// end of the file, and a seek may move past the end but not before the
/// start.
pub struct FileReader {
    data: Vec<u8>,
    pos: u64,
}

impl View for FileReader {
    type V = (Seq<u8>, int);

    closed spec fn view(&self) -> (Seq<u8>, int) {
        (self.data@, self.pos as int)
    }
}

impl FileReader {
    #[verifier::type_invariant]
    closed spec fn inv(&self) -> bool {
        &&& self.data.len() <= MAX_POS
        &&& self.pos <= MAX_POS
    }

    /// A reader at the start of the given file contents.
    pub fn new(data: Vec<u8>) -> (r: FileReader)
        requires
            data.len() <= MAX_POS,
        ensures
            r@ == (data@, 0int),
            reader_ok(r@),
    {
        FileReader { data, pos: 0 }
    }

    /// The file contents.
    pub fn bytes(&self) -> (r: &[u8])
        ensures
            r@ == self@.0,
            reader_ok(self@),
    {
        proof {
            use_type_invariant(self);
        }
        self.data.as_slice()
    }

    /// Length of the file, as its metadata reports it.
    pub fn len(&self) -> (r: u64)
        ensures
            r == self@.0.len(),
            reader_ok(self@),
    {
        proof {
            use_type_invariant(self);
        }
        self.data.len() as u64
    }

    /// The current position.
    pub fn stream_position(&self) -> (r: u64)
        ensures
            r == self@.1,
            reader_ok(self@),
    {
        proof {
            use_type_invariant(self);
        }
        self.pos
    }

    /// Reads up to `n` bytes.
    pub fn read(&mut self, n: usize) -> (r: Vec<u8>)
        ensures
            reader_ok(old(self)@),
            reader_ok(final(self)@),
            final(self)@.0 == old(self)@.0,
            r@ == read_bytes(old(self)@.0, old(self)@.1, n as int),
            final(self)@.1 == old(self)@.1 + read_count(old(self)@.0.len() as int, old(self)@.1, n as int),
    {
        proof {
            use_type_invariant(&*self);
        }
        let len = self.data.len() as u64;
        let mut out: Vec<u8> = Vec::new();
        if self.pos >= len {
            return out;
        }
        let start = self.pos as usize;
        let avail = (len - self.pos) as usize;
        let k = if n <= avail {
            n
        } else {
            avail
        };
        let mut i: usize = 0;
        while i < k
            invariant
                self.data.len() <= MAX_POS,
                start + k <= self.data.len(),
                i <= k,
                out@ == self.data@.subrange(start as int, start + i),
            decreases k - i,
        {
            out.push(self.data[start + i]);
            i += 1;
        }
        self.pos = self.pos + k as u64;
        out
    }

    /// Reads exactly `n` bytes, or fails at the end of the file.
    pub fn read_exact(&mut self, n: usize) -> (r: Result<Vec<u8>, MetaError>)
        ensures
            reader_ok(old(self)@),
            reader_ok(final(self)@),
            final(self)@.0 == old(self)@.0,
            final(self)@.1 == pos_after_exact(old(self)@.0.len() as int, old(self)@.1, n as int),
            can_read_exact(old(self)@.0.len() as int, old(self)@.1, n as int) ==> r == Ok::<
                Vec<u8>,
                MetaError,
            >(r->Ok_0) && r->Ok_0@ == exact_bytes(old(self)@.0, old(self)@.1, n as int),
            !can_read_exact(old(self)@.0.len() as int, old(self)@.1, n as int) ==> r == Err::<
                Vec<u8>,
                MetaError,
            >(MetaError::UnexpectedEof),
    {
        proof {
            use_type_invariant(&*self);
        }
        if n == 0 {
            return Ok(Vec::new());
        }
        let len = self.data.len() as u64;
        if self.pos < len && n as u64 <= len - self.pos {
            let out = self.read(n);
            Ok(out)
        } else {
            if self.pos < len {
                self.pos = len;
            }
            Err(MetaError::UnexpectedEof)
        }
    }

    /// Reads everything from the position to the end.
    pub fn read_to_end(&mut self) -> (r: Vec<u8>)
        ensures
            reader_ok(old(self)@),
            reader_ok(final(self)@),
            final(self)@.0 == old(self)@.0,
            final(self)@.1 == pos_after_all(old(self)@.0.len() as int, old(self)@.1),
            r@ == rest_from(old(self)@.0, old(self)@.1),
    {
        proof {
            use_type_invariant(&*self);
        }
        let len = self.data.len();
        if self.pos >= len as u64 {
            return Vec::new();
        }
        self.read(len)
    }

    /// Moves to the absolute position `n`.
    pub fn seek_start(&mut self, n: u64) -> (r: Result<u64, MetaError>)
        ensures
            reader_ok(old(self)@),
            reader_ok(final(self)@),
            final(self)@.0 == old(self)@.0,
            valid_target(n as int) ==> r == Ok::<u64, MetaError>(n) && final(self)@.1 == n,
            !valid_target(n as int) ==> r == Err::<u64, MetaError>(MetaError::InvalidSeek)
                && final(self)@.1 == old(self)@.1,
    {
        proof {
            use_type_invariant(&*self);
        }
        if n > MAX_POS {
            Err(MetaError::InvalidSeek)
        } else {
            self.pos = n;
            Ok(n)
        }
    }

    /// Moves by `d` bytes from the current position.
    pub fn seek_current(&mut self, d: i64) -> (r: Result<u64, MetaError>)
        ensures
            reader_ok(old(self)@),
            reader_ok(final(self)@),
            final(self)@.0 == old(self)@.0,
            valid_target(old(self)@.1 + d) ==> r == Ok::<u64, MetaError>((old(self)@.1 + d) as u64)
                && final(self)@.1 == old(self)@.1 + d,
            !valid_target(old(self)@.1 + d) ==> r == Err::<u64, MetaError>(MetaError::InvalidSeek)
                && final(self)@.1 == old(self)@.1,
    {
        proof {
            use_type_invariant(&*self);
        }
        let p = self.pos as i128 + d as i128;
        if p < 0 || p > MAX_POS as i128 {
            Err(MetaError::InvalidSeek)
        } else {
            self.pos = p as u64;
            Ok(p as u64)
        }
    }

    /// Moves to `d` bytes from the end of the file.
    pub fn seek_end(&mut self, d: i64) -> (r: Result<u64, MetaError>)
        ensures
            reader_ok(old(self)@),
            reader_ok(final(self)@),
            final(self)@.0 == old(self)@.0,
            valid_target(old(self)@.0.len() + d) ==> r == Ok::<u64, MetaError>(
                (old(self)@.0.len() + d) as u64,
            ) && final(self)@.1 == old(self)@.0.len() + d,
            !valid_target(old(self)@.0.len() + d) ==> r == Err::<u64, MetaError>(
                MetaError::InvalidSeek,
            ) && final(self)@.1 == old(self)@.1,
    {
        proof {
            use_type_invariant(&*self);
        }
        let p = self.data.len() as i128 + d as i128;
        if p < 0 || p > MAX_POS as i128 {
            Err(MetaError::InvalidSeek)
        } else {
            self.pos = p as u64;
            Ok(p as u64)
        }
    }
}

} // verus!

verus! {

/// A measure that shrinks whenever a scan moves forward through the file.
pub open spec fn ahead(len: int, pos: int) -> nat {
    if pos <= len {
        (len + 1 - pos) as nat
    } else {
        0
    }
}

} // verus!
