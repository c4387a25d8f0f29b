//! An in-memory reader with a position, and the three reads built on it:
//! fixed-length strings, null-terminated strings and runs of records.
use crate::common::endian::{
    i128_at, i16_at, i32_at, i64_at, i8_at, le_i128, le_i16, le_i32, le_i64, le_u128, le_u16,
    le_u32, le_u64, lemma_at_subrange, u128_at, u16_at, u32_at, u64_at,
};
use crate::common::errors::{eof, Error, ReadFailure, Result};
use vstd::prelude::*;
use vstd::slice::{slice_subrange, slice_to_vec};
use vstd::string::{StrSliceExecFns, StringExecFns};
use vstd::utf8::{decode_utf8, valid_utf8};

verus! {

/// Bytes held in memory together with a read position.
///
/// The position may lie beyond the last byte: seeking there succeeds, and the
/// next read that asks for a byte fails. A read that fails leaves the reader
/// as it was.
#[derive(Debug)]
pub struct ByteReader {
    data: Vec<u8>,
    position: u64,
}

/// Whether `taken` is what a read up to `delimiter` takes from `rest`: the
/// shortest prefix that ends with the delimiter, or all of `rest` where the
/// delimiter does not occur.
pub open spec fn is_run_until(taken: Seq<u8>, rest: Seq<u8>, delimiter: u8) -> bool {
    &&& taken.len() <= rest.len()
    &&& taken == rest.take(taken.len() as int)
    &&& forall|i: int| 0 <= i < taken.len() - 1 ==> taken[i] != delimiter
    &&& if taken.len() > 0 && taken.last() == delimiter {
        true
    } else {
        taken.len() == rest.len()
    }
}

/// What a read up to `delimiter` takes from `rest`.
pub open spec fn run_until(rest: Seq<u8>, delimiter: u8) -> Seq<u8> {
    choose|taken: Seq<u8>| is_run_until(taken, rest, delimiter)
}

/// There is one run up to a delimiter, and no other.
pub proof fn lemma_run_until_unique(taken: Seq<u8>, rest: Seq<u8>, delimiter: u8)
    requires
        is_run_until(taken, rest, delimiter),
    ensures
        taken == run_until(rest, delimiter),
{
    let other = run_until(rest, delimiter);
    assert(is_run_until(other, rest, delimiter));
    if taken.len() < other.len() {
        assert(taken.last() == delimiter);
        assert(other[taken.len() - 1] == rest[taken.len() - 1]);
        assert(taken[taken.len() - 1] == rest[taken.len() - 1]);
    } else if other.len() < taken.len() {
        assert(other.last() == delimiter);
        assert(taken[other.len() - 1] == rest[other.len() - 1]);
        assert(other[other.len() - 1] == rest[other.len() - 1]);
    }
    assert(taken =~= other);
}

/// Whether `s` is the four bytes `FF FF FF FF` that stand for an empty string.
pub open spec fn is_empty_marker(s: Seq<u8>) -> bool {
    s.len() == 4 && s[0] == 0xFF && s[1] == 0xFF && s[2] == 0xFF && s[3] == 0xFF
}

/// The string that a fixed-length field with the bytes `s` holds.
pub open spec fn fixed_string(s: Seq<u8>) -> Result<Seq<char>> {
    if is_empty_marker(s) {
        Ok(Seq::empty())
    } else if valid_utf8(s) {
        Ok(decode_utf8(s))
    } else {
        Err(Error::Utf8ReadingError)
    }
}

/// Four bytes `FF FF FF FF` read as a fixed-length string give the empty
/// string, although they are not UTF-8.
pub proof fn lemma_marker_reads_empty(s: Seq<u8>)
    requires
        s.len() == 4,
        forall|i: int| 0 <= i < 4 ==> s[i] == 0xFF,
    ensures
        fixed_string(s) == Ok::<Seq<char>, Error>(Seq::empty()),
{
}

/// The string that a null-terminated read yields from the run `taken`: the
/// run without its last byte, decoded.
pub open spec fn terminated_string(taken: Seq<u8>) -> Result<Seq<char>> {
    let body = if taken.len() > 0 {
        taken.drop_last()
    } else {
        taken
    };
    if valid_utf8(body) {
        Ok(decode_utf8(body))
    } else {
        Err(Error::Utf8ReadingError)
    }
}

/// The string that a null-terminated read at `pos` yields.
pub open spec fn terminated_at(bytes: Seq<u8>, pos: int) -> Result<Seq<char>> {
    terminated_string(run_until(rest_at(bytes, pos), 0))
}

/// The bytes of `bytes` from `pos` on; none where `pos` lies beyond the end.
pub open spec fn rest_at(bytes: Seq<u8>, pos: int) -> Seq<u8> {
    if 0 <= pos <= bytes.len() {
        bytes.skip(pos)
    } else {
        Seq::empty()
    }
}

/// What reading exactly `length` bytes at `pos` yields: the bytes and the
/// position behind them, or the error where fewer are left.
pub open spec fn exact_at(bytes: Seq<u8>, pos: int, length: nat) -> Result<(Seq<u8>, int)> {
    if length <= rest_at(bytes, pos).len() {
        Ok((rest_at(bytes, pos).take(length as int), pos + length))
    } else {
        Err(eof())
    }
}

/// Trusted: `String::from_utf8`. It yields the string that the bytes encode
/// where they are valid UTF-8, and fails otherwise.
#[verifier::external_body]
pub(crate) fn string_from_utf8(bytes: Vec<u8>) -> (r: Option<String>)
    ensures
        r is Some <==> valid_utf8(bytes@),
        r is Some ==> r->Some_0@ == decode_utf8(bytes@),
{
    String::from_utf8(bytes).ok()
}

/// The characters of `text` in reverse order.
pub fn reversed(text: &str) -> (r: String)
    ensures
        r@ == text@.reverse(),
{
    let count: usize = text.unicode_len();
    let mut result: String = String::new();
    let mut left: usize = count;
    while left > 0
        invariant
            left <= count,
            count == text@.len(),
            result@.len() == count - left,
            forall|i: int| 0 <= i < result@.len() ==> result@[i] == text@[count - 1 - i],
        decreases left,
    {
        left = left - 1;
        result.append(text.substring_char(left, left + 1));
    }
    assert(result@ =~= text@.reverse());
    result
}

impl ByteReader {
    /// All bytes of the reader, whatever the position.
    pub closed spec fn bytes(&self) -> Seq<u8> {
        self.data@
    }

    /// The position of the next read, counted from the first byte.
    pub closed spec fn pos(&self) -> u64 {
        self.position
    }

    /// Whether `n` more bytes can be read.
    pub open spec fn has(&self, n: int) -> bool {
        self.pos() + n <= self.bytes().len()
    }

    /// The bytes from the position on; none where the position lies beyond
    /// the end.
    pub open spec fn rest(&self) -> Seq<u8> {
        rest_at(self.bytes(), self.pos() as int)
    }

    /// A reader over `data`, positioned at its first byte.
    pub fn new(data: Vec<u8>) -> (r: Self)
        ensures
            r.bytes() == data@,
            r.pos() == 0,
    {
        ByteReader { data, position: 0 }
    }

    /// Gives the bytes back.
    pub fn into_inner(self) -> (r: Vec<u8>)
        ensures
            r@ == self.bytes(),
    {
        self.data
    }

    /// The number of bytes held.
    pub fn len(&self) -> (r: usize)
        ensures
            r == self.bytes().len(),
    {
        self.data.len()
    }

    /// The current position.
    pub fn stream_position(&self) -> (r: u64)
        ensures
            r == self.pos(),
    {
        self.position
    }

    /// Moves to `position`, counted from the first byte. Never fails, also
    /// beyond the last byte.
    pub fn seek(&mut self, position: u64)
        ensures
            final(self).bytes() == old(self).bytes(),
            final(self).pos() == position,
    {
        self.position = position;
    }

    /// Moves to the first byte.
    pub fn rewind(&mut self)
        ensures
            final(self).bytes() == old(self).bytes(),
            final(self).pos() == 0,
    {
        self.position = 0;
    }

    /// Moves by `offset` from the current position. Fails with
    /// [`ReadFailure::InvalidSeek`] where the target is negative or does not
    /// fit 64 bits.
    pub fn seek_relative(&mut self, offset: i64) -> (r: Result<()>)
        ensures
            final(self).bytes() == old(self).bytes(),
            0 <= old(self).pos() + offset <= u64::MAX ==> r is Ok && final(self).pos() == old(self).pos() + offset,
            !(0 <= old(self).pos() + offset <= u64::MAX) ==> r == Err::<(), Error>(
                Error::ReadError(ReadFailure::InvalidSeek),
            ) && final(self).pos() == old(self).pos(),
    {
        if offset >= 0 {
            let step: u64 = offset as u64;
            if step <= u64::MAX - self.position {
                self.position = self.position + step;
                Ok(())
            } else {
                Err(Error::ReadError(ReadFailure::InvalidSeek))
            }
        } else {
            let back: u64 = if offset == i64::MIN {
                0x8000_0000_0000_0000
            } else {
                (-offset) as u64
            };
            if back <= self.position {
                self.position = self.position - back;
                Ok(())
            } else {
                Err(Error::ReadError(ReadFailure::InvalidSeek))
            }
        }
    }

    /// Whether `length` bytes are left, as an executable test.
    fn can_take(&self, length: usize) -> (r: bool)
        ensures
            r == (length <= self.rest().len()),
            r && length > 0 ==> self.has(length as int),
            self.bytes().len() <= usize::MAX,
    {
        let total: usize = self.data.len();
        if self.position > total as u64 {
            length == 0
        } else {
            let start: usize = self.position as usize;
            length <= total - start
        }
    }

    /// Reads exactly `length` bytes. Fails with
    /// [`ReadFailure::UnexpectedEof`] where fewer are left.
    pub fn read_exact(&mut self, length: usize) -> (r: Result<Vec<u8>>)
        ensures
            final(self).bytes() == old(self).bytes(),
            match r {
                Ok(taken) => length <= old(self).rest().len() && taken@ == old(self).rest().take(
                    length as int,
                ) && final(self).pos() == old(self).pos() + length,
                Err(e) => length > old(self).rest().len() && e == eof() && final(self).pos()
                    == old(self).pos(),
            },
    {
        if !self.can_take(length) {
            return Err(Error::ReadError(ReadFailure::UnexpectedEof));
        }
        if length == 0 {
            let none: Vec<u8> = Vec::new();
            assert(none@ =~= self.rest().take(0));
            return Ok(none);
        }
        let start: usize = self.position as usize;
        let taken: Vec<u8> = slice_to_vec(slice_subrange(self.data.as_slice(), start, start + length));
        assert(taken@ =~= self.rest().take(length as int));
        self.position = self.position + length as u64;
        Ok(taken)
    }

    /// Reads one byte.
    pub fn read_u8(&mut self) -> (r: Result<u8>)
        ensures
            final(self).bytes() == old(self).bytes(),
            match r {
                Ok(v) => old(self).has(1) && v == old(self).bytes()[old(self).pos() as int]
                    && final(self).pos() == old(self).pos() + 1,
                Err(e) => !old(self).has(1) && e == eof() && final(self).pos() == old(self).pos(),
            },
    {
        if !self.can_take(1) {
            return Err(Error::ReadError(ReadFailure::UnexpectedEof));
        }
        let v: u8 = self.data[self.position as usize];
        self.position = self.position + 1;
        Ok(v)
    }

    /// Reads one byte as a two's complement number.
    pub fn read_i8(&mut self) -> (r: Result<i8>)
        ensures
            final(self).bytes() == old(self).bytes(),
            match r {
                Ok(v) => old(self).has(1) && v == i8_at(old(self).bytes(), old(self).pos() as int)
                    && final(self).pos() == old(self).pos() + 1,
                Err(e) => !old(self).has(1) && e == eof() && final(self).pos() == old(self).pos(),
            },
    {
        if !self.can_take(1) {
            return Err(Error::ReadError(ReadFailure::UnexpectedEof));
        }
        let v: u8 = self.data[self.position as usize];
        self.position = self.position + 1;
        if v < 0x80 {
            Ok(v as i8)
        } else {
            Ok((v as i16 - 0x100) as i8)
        }
    }

    /// The `width` bytes at the position, without moving.
    fn window(&self, width: usize) -> (r: &[u8])
        requires
            width > 0,
            self.has(width as int),
        ensures
            r@ == self.bytes().subrange(self.pos() as int, self.pos() + width),
    {
        let total: usize = self.data.len();
        let start: usize = self.position as usize;
        slice_subrange(self.data.as_slice(), start, start + width)
    }

    /// Reads a little-endian `u16`.
    pub fn read_u16(&mut self) -> (r: Result<u16>)
        ensures
            final(self).bytes() == old(self).bytes(),
            match r {
                Ok(v) => old(self).has(2) && v == u16_at(old(self).bytes(), old(self).pos() as int)
                    && final(self).pos() == old(self).pos() + 2,
                Err(e) => !old(self).has(2) && e == eof() && final(self).pos() == old(self).pos(),
            },
    {
        if !self.can_take(2) {
            return Err(Error::ReadError(ReadFailure::UnexpectedEof));
        }
        let v: u16 = le_u16(self.window(2));
        proof {
            lemma_at_subrange(self.bytes(), self.pos() as int, self.pos() + 2);
        }
        self.position = self.position + 2;
        Ok(v)
    }

    /// Reads a little-endian `i16`.
    pub fn read_i16(&mut self) -> (r: Result<i16>)
        ensures
            final(self).bytes() == old(self).bytes(),
            match r {
                Ok(v) => old(self).has(2) && v == i16_at(old(self).bytes(), old(self).pos() as int)
                    && final(self).pos() == old(self).pos() + 2,
                Err(e) => !old(self).has(2) && e == eof() && final(self).pos() == old(self).pos(),
            },
    {
        if !self.can_take(2) {
            return Err(Error::ReadError(ReadFailure::UnexpectedEof));
        }
        let v: i16 = le_i16(self.window(2));
        proof {
            lemma_at_subrange(self.bytes(), self.pos() as int, self.pos() + 2);
        }
        self.position = self.position + 2;
        Ok(v)
    }

    /// Reads a little-endian `u32`.
    pub fn read_u32(&mut self) -> (r: Result<u32>)
        ensures
            final(self).bytes() == old(self).bytes(),
            match r {
                Ok(v) => old(self).has(4) && v == u32_at(old(self).bytes(), old(self).pos() as int)
                    && final(self).pos() == old(self).pos() + 4,
                Err(e) => !old(self).has(4) && e == eof() && final(self).pos() == old(self).pos(),
            },
    {
        if !self.can_take(4) {
            return Err(Error::ReadError(ReadFailure::UnexpectedEof));
        }
        let v: u32 = le_u32(self.window(4));
        proof {
            lemma_at_subrange(self.bytes(), self.pos() as int, self.pos() + 4);
        }
        self.position = self.position + 4;
        Ok(v)
    }

    /// Reads a little-endian `i32`.
    pub fn read_i32(&mut self) -> (r: Result<i32>)
        ensures
            final(self).bytes() == old(self).bytes(),
            match r {
                Ok(v) => old(self).has(4) && v == i32_at(old(self).bytes(), old(self).pos() as int)
                    && final(self).pos() == old(self).pos() + 4,
                Err(e) => !old(self).has(4) && e == eof() && final(self).pos() == old(self).pos(),
            },
    {
        if !self.can_take(4) {
            return Err(Error::ReadError(ReadFailure::UnexpectedEof));
        }
        let v: i32 = le_i32(self.window(4));
        proof {
            lemma_at_subrange(self.bytes(), self.pos() as int, self.pos() + 4);
        }
        self.position = self.position + 4;
        Ok(v)
    }

    /// Reads a little-endian `u64`.
    pub fn read_u64(&mut self) -> (r: Result<u64>)
        ensures
            final(self).bytes() == old(self).bytes(),
            match r {
                Ok(v) => old(self).has(8) && v == u64_at(old(self).bytes(), old(self).pos() as int)
                    && final(self).pos() == old(self).pos() + 8,
                Err(e) => !old(self).has(8) && e == eof() && final(self).pos() == old(self).pos(),
            },
    {
        if !self.can_take(8) {
            return Err(Error::ReadError(ReadFailure::UnexpectedEof));
        }
        let v: u64 = le_u64(self.window(8));
        proof {
            lemma_at_subrange(self.bytes(), self.pos() as int, self.pos() + 8);
        }
        self.position = self.position + 8;
        Ok(v)
    }

    /// Reads a little-endian `i64`.
    pub fn read_i64(&mut self) -> (r: Result<i64>)
        ensures
            final(self).bytes() == old(self).bytes(),
            match r {
                Ok(v) => old(self).has(8) && v == i64_at(old(self).bytes(), old(self).pos() as int)
                    && final(self).pos() == old(self).pos() + 8,
                Err(e) => !old(self).has(8) && e == eof() && final(self).pos() == old(self).pos(),
            },
    {
        if !self.can_take(8) {
            return Err(Error::ReadError(ReadFailure::UnexpectedEof));
        }
        let v: i64 = le_i64(self.window(8));
        proof {
            lemma_at_subrange(self.bytes(), self.pos() as int, self.pos() + 8);
        }
        self.position = self.position + 8;
        Ok(v)
    }

    /// Reads a little-endian `u128`.
    pub fn read_u128(&mut self) -> (r: Result<u128>)
        ensures
            final(self).bytes() == old(self).bytes(),
            match r {
                Ok(v) => old(self).has(16) && v == u128_at(
                    old(self).bytes(),
                    old(self).pos() as int,
                ) && final(self).pos() == old(self).pos() + 16,
                Err(e) => !old(self).has(16) && e == eof() && final(self).pos() == old(self).pos(),
            },
    {
        if !self.can_take(16) {
            return Err(Error::ReadError(ReadFailure::UnexpectedEof));
        }
        let v: u128 = le_u128(self.window(16));
        proof {
            lemma_at_subrange(self.bytes(), self.pos() as int, self.pos() + 16);
        }
        self.position = self.position + 16;
        Ok(v)
    }

    /// Reads a little-endian `i128`.
    pub fn read_i128(&mut self) -> (r: Result<i128>)
        ensures
            final(self).bytes() == old(self).bytes(),
            match r {
                Ok(v) => old(self).has(16) && v == i128_at(
                    old(self).bytes(),
                    old(self).pos() as int,
                ) && final(self).pos() == old(self).pos() + 16,
                Err(e) => !old(self).has(16) && e == eof() && final(self).pos() == old(self).pos(),
            },
    {
        if !self.can_take(16) {
            return Err(Error::ReadError(ReadFailure::UnexpectedEof));
        }
        let v: i128 = le_i128(self.window(16));
        proof {
            lemma_at_subrange(self.bytes(), self.pos() as int, self.pos() + 16);
        }
        self.position = self.position + 16;
        Ok(v)
    }

    /// Reads all bytes that are left and moves behind them.
    pub fn read_to_end(&mut self) -> (r: Vec<u8>)
        ensures
            final(self).bytes() == old(self).bytes(),
            r@ == old(self).rest(),
            final(self).pos() == old(self).pos() + old(self).rest().len(),
    {
        let total: usize = self.data.len();
        if self.position >= total as u64 {
            let none: Vec<u8> = Vec::new();
            assert(none@ =~= self.rest());
            return none;
        }
        let start: usize = self.position as usize;
        let taken: Vec<u8> = slice_to_vec(slice_subrange(self.data.as_slice(), start, total));
        assert(taken@ =~= self.rest());
        self.position = total as u64;
        taken
    }

    /// Reads up to and including the first `delimiter`, or to the end where
    /// there is none, and moves behind what it read.
    pub fn read_until(&mut self, delimiter: u8) -> (r: Vec<u8>)
        ensures
            final(self).bytes() == old(self).bytes(),
            is_run_until(r@, old(self).rest(), delimiter),
            final(self).pos() == old(self).pos() + r@.len(),
    {
        let total: usize = self.data.len();
        if self.position >= total as u64 {
            let none: Vec<u8> = Vec::new();
            assert(none@ =~= self.rest().take(0));
            return none;
        }
        let start: usize = self.position as usize;
        let mut end: usize = start;
        let mut found: bool = false;
        while end < total && !found
            invariant
                start <= end <= total,
                total == self.data@.len(),
                start == self.position,
                forall|i: int| start <= i < end - 1 ==> self.data@[i] != delimiter,
                found ==> end > start && self.data@[end - 1] == delimiter,
                !found ==> forall|i: int| start <= i < end ==> self.data@[i] != delimiter,
            decreases total - end + if found { 0int } else { 1int },
        {
            if self.data[end] == delimiter {
                found = true;
            }
            end = end + 1;
        }
        let taken: Vec<u8> = slice_to_vec(slice_subrange(self.data.as_slice(), start, end));
        assert(taken@ =~= self.rest().take(taken@.len() as int));
        self.position = end as u64;
        taken
    }
}

/// Types that are read one after another from a reader.
///
/// `decode` says what a read at position `pos` of `bytes` yields: the value
/// and the position behind it, or the error. `read` has to follow it.
pub trait Enumerable: Sized {
    /// The value encoded at `pos` and the position behind it, or the error
    /// with which reading there fails. A type that does not say otherwise
    /// leaves open what it reads.
    open spec fn decode(bytes: Seq<u8>, pos: int) -> Result<(Self, int)> {
        arbitrary()
    }

    /// Reads one value at the reader's position into `self`.
    fn read(&mut self, reader: &mut ByteReader) -> (r: Result<()>)
        ensures
            final(reader).bytes() == old(reader).bytes(),
            match Self::decode(old(reader).bytes(), old(reader).pos() as int) {
                Ok((value, end)) => r is Ok && *final(self) == value && final(reader).pos() == end,
                Err(e) => r == Err::<(), Error>(e),
            },
    ;
}

/// What reading `count` values one after another from `pos` yields: the
/// values in stream order and the position behind the last, or the first
/// error.
pub open spec fn decode_run<T: Enumerable>(bytes: Seq<u8>, pos: int, count: nat) -> Result<
    (Seq<T>, int),
>
    decreases count,
{
    if count == 0 {
        Ok((Seq::empty(), pos))
    } else {
        match decode_run::<T>(bytes, pos, (count - 1) as nat) {
            Err(e) => Err(e),
            Ok((items, at)) => match T::decode(bytes, at) {
                Err(e) => Err(e),
                Ok((item, end)) => Ok((items.push(item), end)),
            },
        }
    }
}

/// Reads that every reader offers on top of its integers.
pub trait BufReaderExt {
    /// Reads exactly `length` bytes as a string. Four bytes `FF FF FF FF`
    /// stand for the empty string.
    fn read_fixed_string(&mut self, length: usize) -> Result<String>;

    /// Reads up to and including the next zero byte and yields what stands
    /// before it as a string.
    fn read_null_terminated_string(&mut self) -> Result<String>;

    /// Reads `count` values of type `T` one after another.
    fn read_enumerable<T: Default + Enumerable>(&mut self, count: u64) -> Result<Vec<T>>;
}

impl BufReaderExt for ByteReader {
    fn read_fixed_string(&mut self, length: usize) -> (r: Result<String>)
        ensures
            final(self).bytes() == old(self).bytes(),
            length > old(self).rest().len() ==> r == Err::<String, Error>(eof()) && final(self).pos() == old(self).pos(),
            length <= old(self).rest().len() ==> final(self).pos() == old(self).pos() + length
                && match fixed_string(old(self).rest().take(length as int)) {
                Ok(text) => r is Ok && r->Ok_0@ == text,
                Err(e) => r == Err::<String, Error>(e),
            },
    {
        let buffer: Vec<u8> = match self.read_exact(length) {
            Ok(buffer) => buffer,
            Err(e) => {
                return Err(e);
            },
        };
        if buffer.len() == 4 && buffer[0] == 0xFF && buffer[1] == 0xFF && buffer[2] == 0xFF
            && buffer[3] == 0xFF {
            return Ok(String::new());
        }
        match string_from_utf8(buffer) {
            Some(text) => Ok(text),
            None => Err(Error::Utf8ReadingError),
        }
    }

    fn read_null_terminated_string(&mut self) -> (r: Result<String>)
        ensures
            final(self).bytes() == old(self).bytes(),
            final(self).pos() == old(self).pos() + run_until(old(self).rest(), 0).len(),
            match terminated_at(old(self).bytes(), old(self).pos() as int) {
                Ok(text) => r is Ok && r->Ok_0@ == text,
                Err(e) => r == Err::<String, Error>(e),
            },
    {
        let mut buffer: Vec<u8> = self.read_until(0);
        let ghost taken: Seq<u8> = buffer@;
        proof {
            lemma_run_until_unique(taken, old(self).rest(), 0);
        }
        buffer.pop();
        assert(taken.len() > 0 ==> buffer@ =~= taken.drop_last());
        match string_from_utf8(buffer) {
            Some(text) => Ok(text),
            None => Err(Error::Utf8ReadingError),
        }
    }

    fn read_enumerable<T: Default + Enumerable>(&mut self, count: u64) -> (r: Result<Vec<T>>)
        ensures
            final(self).bytes() == old(self).bytes(),
            count > usize::MAX ==> r == Err::<Vec<T>, Error>(Error::TryFromIntError),
            count <= usize::MAX ==> match decode_run::<T>(
                old(self).bytes(),
                old(self).pos() as int,
                count as nat,
            ) {
                Ok((items, end)) => r is Ok && r->Ok_0@ == items && final(self).pos() == end,
                Err(e) => r == Err::<Vec<T>, Error>(e),
            },
    {
        if count > usize::MAX as u64 {
            return Err(Error::TryFromIntError);
        }
        let mut enumerables: Vec<T> = Vec::new();
        let mut done: u64 = 0;
        while done < count
            invariant
                done <= count <= usize::MAX,
                self.bytes() == old(self).bytes(),
                decode_run::<T>(old(self).bytes(), old(self).pos() as int, done as nat) == Ok::<
                    (Seq<T>, int),
                    Error,
                >((enumerables@, self.pos() as int)),
            decreases count - done,
        {
            let mut enumerable: T = T::default();
            match enumerable.read(self) {
                Ok(()) => {},
                Err(e) => {
                    proof {
                        lemma_run_fails_later::<T>(
                            old(self).bytes(),
                            old(self).pos() as int,
                            (done + 1) as nat,
                            count as nat,
                        );
                    }
                    return Err(e);
                },
            }
            enumerables.push(enumerable);
            done = done + 1;
        }
        Ok(enumerables)
    }
}

/// A run that fails after `shorter` values fails with the same error however
/// many more are asked for.
pub proof fn lemma_run_fails_later<T: Enumerable>(
    bytes: Seq<u8>,
    pos: int,
    shorter: nat,
    longer: nat,
)
    requires
        shorter <= longer,
        decode_run::<T>(bytes, pos, shorter) is Err,
    ensures
        decode_run::<T>(bytes, pos, longer) == decode_run::<T>(bytes, pos, shorter),
    decreases longer,
{
    if shorter < longer {
        lemma_run_fails_later::<T>(bytes, pos, shorter, (longer - 1) as nat);
    }
}

} // verus!
