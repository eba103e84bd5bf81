use vstd::prelude::*;
use crate::common::error::Error;

verus! {

/// Appends bytes to a buffer of fixed size that the caller hands over.
///
/// The buffer never grows: a write that does not fit fails with
/// [`Error::Overflow`] and leaves what was written so far untouched.
pub struct Writer {
    buf: Vec<u8>,
    index: usize,
}

impl View for Writer {
    type V = Seq<u8>;

    /// The bytes written so far.
    closed spec fn view(&self) -> Seq<u8> {
        self.buf@.take(self.index as int)
    }
}

/// What a write of `bytes` owes its caller: all of them appended where they
/// fit, and otherwise an overflow with nothing written.
pub open spec fn appended(before: Writer, after: Writer, r: Result<(), Error>, bytes: Seq<u8>) -> bool {
    &&& after.wf()
    &&& after.capacity() == before.capacity()
    &&& if before@.len() + bytes.len() <= before.capacity() {
        r == Ok::<(), Error>(()) && after@ == before@ + bytes
    } else {
        r == Err::<(), Error>(Error::Overflow) && after@ == before@
    }
}

/// What an encoder owes its caller where the value has a wire form, and where
/// it has none: the bytes appended, or the error and nothing written.
pub open spec fn encoded(
    before: Writer,
    after: Writer,
    r: Result<(), Error>,
    wire: Result<Seq<u8>, Error>,
) -> bool {
    match wire {
        Ok(bytes) => appended(before, after, r, bytes),
        Err(e) => r == Err::<(), Error>(e) && unchanged(before, after),
    }
}

impl Writer {
    /// The write position lies inside the buffer.
    pub closed spec fn wf(&self) -> bool {
        self.index <= self.buf@.len()
    }

    /// The size of the buffer: the most bytes that can ever be written.
    pub closed spec fn capacity(&self) -> nat {
        self.buf@.len()
    }

    pub proof fn lemma_len_le_capacity(&self)
        requires
            self.wf(),
        ensures
            self@.len() <= self.capacity(),
    {
    }

    /// Starts writing at the front of `buf`, whose length is the capacity.
    pub fn new(buf: Vec<u8>) -> (w: Writer)
        ensures
            w.wf(),
            w@ == Seq::<u8>::empty(),
            w.capacity() == buf@.len(),
    {
        Writer { buf, index: 0 }
    }

    /// The number of bytes written so far.
    pub fn len(&self) -> (n: usize)
        requires
            self.wf(),
        ensures
            n == self@.len(),
            n <= self.capacity(),
    {
        self.index
    }

    /// The number of bytes that still fit.
    pub fn room(&self) -> (n: usize)
        requires
            self.wf(),
        ensures
            n == self.capacity() - self@.len(),
    {
        self.buf.len() - self.index
    }

    /// Appends one byte.
    pub fn push(&mut self, byte: u8) -> (r: Result<(), Error>)
        requires
            old(self).wf(),
        ensures
            appended(*old(self), *final(self), r, seq![byte]),
    {
        if self.index >= self.buf.len() {
            return Err(Error::Overflow);
        }
        self.buf.set(self.index, byte);
        self.index = self.index + 1;
        assert(self@ =~= old(self)@ + seq![byte]);
        Ok(())
    }

    /// Appends all of `bytes`, or none of them where they do not fit.
    pub fn extend_from_slice(&mut self, bytes: &[u8]) -> (r: Result<(), Error>)
        requires
            old(self).wf(),
        ensures
            appended(*old(self), *final(self), r, bytes@),
    {
        if bytes.len() > self.buf.len() - self.index {
            return Err(Error::Overflow);
        }
        let ghost start = self.index;
        let ghost written = self@;
        let ghost size = self.buf@.len();
        let mut i: usize = 0;
        while i < bytes.len()
            invariant
                i <= bytes@.len(),
                self.buf@.len() == size,
                self.index == start + i,
                start + bytes@.len() <= size <= usize::MAX,
                self@ == written + bytes@.take(i as int),
            decreases bytes@.len() - i,
        {
            let ghost before = self@;
            self.buf.set(self.index, bytes[i]);
            self.index = self.index + 1;
            assert(self@ =~= before.push(bytes@[i as int]));
            assert(bytes@.take(i + 1) =~= bytes@.take(i as int).push(bytes@[i as int]));
            i = i + 1;
        }
        assert(bytes@.take(i as int) =~= bytes@);
        Ok(())
    }

    /// Ends a longer write that began when `start` bytes were written: where
    /// it failed, everything written since is forgotten.
    pub(crate) fn settle(&mut self, start: usize, r: Result<(), Error>) -> (out: Result<(), Error>)
        requires
            old(self).wf(),
            start <= old(self)@.len(),
        ensures
            out == r,
            final(self).wf(),
            final(self).capacity() == old(self).capacity(),
            r.is_ok() ==> final(self)@ == old(self)@,
            r.is_err() ==> final(self)@ == old(self)@.take(start as int),
    {
        if r.is_err() {
            self.truncate(start);
        }
        r
    }

    /// Forgets everything written after the first `len` bytes.
    pub fn truncate(&mut self, len: usize)
        requires
            old(self).wf(),
            len <= old(self)@.len(),
        ensures
            final(self).wf(),
            final(self).capacity() == old(self).capacity(),
            final(self)@ == old(self)@.take(len as int),
    {
        self.index = len;
        assert(self@ =~= old(self)@.take(len as int));
    }

    /// Overwrites the two bytes at `at` and `at + 1`, already written, with
    /// `value` in big-endian order.
    pub fn patch_u16(&mut self, at: usize, value: u16)
        requires
            old(self).wf(),
            at + 2 <= old(self)@.len(),
        ensures
            final(self).wf(),
            final(self).capacity() == old(self).capacity(),
            final(self)@ == old(self)@.update(at as int, (value / 256) as u8).update(
                at + 1,
                (value % 256) as u8,
            ),
    {
        self.buf.set(at, (value / 256) as u8);
        self.buf.set(at + 1, (value % 256) as u8);
        assert(self@ =~= old(self)@.update(at as int, (value / 256) as u8).update(
            at + 1,
            (value % 256) as u8,
        ));
    }

    /// The bytes written so far.
    pub fn to_bytes(&self) -> (bytes: &[u8])
        requires
            self.wf(),
        ensures
            bytes@ == self@,
    {
        vstd::slice::slice_subrange(self.buf.as_slice(), 0, self.index)
    }
}

/// A read position inside a byte buffer that the caller keeps and passes to
/// every read. Nothing at or after `end` is ever read.
#[derive(Debug, Clone, Copy, PartialEq, Eq, Structural)]
pub struct Reader {
    pub index: usize,
    pub end: usize,
}

/// A reader that went `used` bytes forward in a buffer holding `buf`, none of
/// them beyond what was left to read.
pub open spec fn moved(before: Reader, after: Reader, buf: Seq<u8>, used: nat) -> bool {
    &&& after.end == before.end
    &&& after.index == before.index + used
    &&& used <= before.remaining(buf).len()
    &&& after.remaining(buf) == before.remaining(buf).skip(used as int)
}

/// What a decoder owes its caller, given what the unread bytes hold: the value
/// and a position advanced past it, or the error with the position unmoved.
pub open spec fn decoded<T>(
    before: Reader,
    after: Reader,
    buf: Seq<u8>,
    r: Result<T, Error>,
    parsed: Result<(T, nat), Error>,
) -> bool {
    match parsed {
        Ok((value, used)) => r == Ok::<T, Error>(value) && moved(before, after, buf, used),
        Err(e) => r == Err::<T, Error>(e) && after == before,
    }
}

/// Two moves in a row are one move over both distances.
pub proof fn lemma_moved_twice(a: Reader, b: Reader, c: Reader, buf: Seq<u8>, n: nat, m: nat)
    requires
        moved(a, b, buf, n),
        moved(b, c, buf, m),
    ensures
        moved(a, c, buf, n + m),
{
    assert(a.remaining(buf).skip(n as int).skip(m as int) =~= a.remaining(buf).skip((n + m) as int));
}

/// The same for a value that borrows from the buffer and is told by its view.
pub open spec fn decoded_as<T: View>(
    before: Reader,
    after: Reader,
    buf: Seq<u8>,
    r: Result<T, Error>,
    parsed: Result<(T::V, nat), Error>,
) -> bool {
    match parsed {
        Ok((value, used)) => r.is_ok() && r.unwrap()@ == value && moved(before, after, buf, used),
        Err(e) => r == Err::<T, Error>(e) && after == before,
    }
}

/// Two writes in a row, the first of which went through, amount to one write
/// of both parts, once the writer is cut back to where it was if the second
/// failed.
pub proof fn lemma_appended_twice(
    w0: Writer,
    w1: Writer,
    w2: Writer,
    r: Result<(), Error>,
    a: Seq<u8>,
    b: Seq<u8>,
)
    requires
        w0.wf(),
        appended(w0, w1, Ok(()), a),
        appended(w1, w2, r, b),
    ensures
        r.is_ok() ==> appended(w0, w2, r, a + b),
        r.is_err() ==> w0@.len() + (a + b).len() > w0.capacity() && r == Err::<(), Error>(
            Error::Overflow,
        ) && w0@.len() <= w2@.len() && w2@.take(w0@.len() as int) == w0@,
{
    w0.lemma_len_le_capacity();
    assert(w0@ + a + b =~= w0@ + (a + b));
    assert((w0@ + a).take(w0@.len() as int) =~= w0@);
}

/// What one step of a longer write owes its caller: all of `bytes` appended
/// where they fit, and otherwise an overflow, with what was written before
/// still in place but possibly a part of `bytes` behind it.
pub open spec fn written(before: Writer, after: Writer, r: Result<(), Error>, bytes: Seq<u8>) -> bool {
    &&& after.wf()
    &&& after.capacity() == before.capacity()
    &&& before@.len() <= after@.len()
    &&& after@.take(before@.len() as int) == before@
    &&& if before@.len() + bytes.len() <= before.capacity() {
        r == Ok::<(), Error>(()) && after@ == before@ + bytes
    } else {
        r == Err::<(), Error>(Error::Overflow)
    }
}

/// A write that appends all or nothing is a step of a longer write.
pub proof fn lemma_appended_is_written(
    before: Writer,
    after: Writer,
    r: Result<(), Error>,
    bytes: Seq<u8>,
)
    requires
        before.wf(),
        appended(before, after, r, bytes),
    ensures
        written(before, after, r, bytes),
{
    assert(before@.take(before@.len() as int) =~= before@);
    assert((before@ + bytes).take(before@.len() as int) =~= before@);
}

/// Two steps in a row, the first of which went through, are one step that
/// writes both parts.
pub proof fn lemma_written_twice(
    w0: Writer,
    w1: Writer,
    w2: Writer,
    r: Result<(), Error>,
    a: Seq<u8>,
    b: Seq<u8>,
)
    requires
        w0.wf(),
        written(w0, w1, Ok(()), a),
        written(w1, w2, r, b),
    ensures
        written(w0, w2, r, a + b),
{
    w0.lemma_len_le_capacity();
    assert(w0@ + a + b =~= w0@ + (a + b));
    assert((w0@ + a).take(w0@.len() as int) =~= w0@);
    assert(w2@.take(w0@.len() as int) =~= w2@.take(w1@.len() as int).take(w0@.len() as int));
}

/// One more step of a longer write: with what was written before it, it is a
/// step that writes both, and where it failed, so has any longer write.
pub proof fn lemma_written_next(
    w0: Writer,
    w1: Writer,
    w2: Writer,
    r: Result<(), Error>,
    a: Seq<u8>,
    b: Seq<u8>,
    more: Seq<u8>,
)
    requires
        w0.wf(),
        written(w0, w1, Ok(()), a),
        written(w1, w2, r, b),
    ensures
        written(w0, w2, r, a + b),
        r.is_err() ==> written(w0, w2, r, a + b + more),
{
    lemma_written_twice(w0, w1, w2, r, a, b);
}

/// A writer has written nothing since it was last looked at.
pub proof fn lemma_written_nothing(w: Writer)
    requires
        w.wf(),
    ensures
        written(w, w, Ok(()), Seq::empty()),
{
    w.lemma_len_le_capacity();
    assert(w@ + Seq::<u8>::empty() =~= w@);
    assert(w@.take(w@.len() as int) =~= w@);
}

/// A step that failed writes nothing on top of a step that went through.
pub proof fn lemma_written_first_failed(
    w0: Writer,
    w1: Writer,
    a: Seq<u8>,
    b: Seq<u8>,
)
    requires
        written(w0, w1, Err(Error::Overflow), a),
    ensures
        written(w0, w1, Err(Error::Overflow), a + b),
{
}

/// Two moves in a row are one move, told by the positions alone.
pub proof fn lemma_moved_on(a: Reader, b: Reader, c: Reader, buf: Seq<u8>)
    requires
        a.index <= b.index <= c.index,
        moved(a, b, buf, (b.index - a.index) as nat),
        moved(b, c, buf, (c.index - b.index) as nat),
    ensures
        moved(a, c, buf, (c.index - a.index) as nat),
{
    lemma_moved_twice(a, b, c, buf, (b.index - a.index) as nat, (c.index - b.index) as nat);
}

/// A writer that holds what it held before.
pub open spec fn unchanged(before: Writer, after: Writer) -> bool {
    &&& after.wf()
    &&& after.capacity() == before.capacity()
    &&& after@ == before@
}

impl Reader {
    /// The first position that may not be read in a buffer holding `buf`.
    pub open spec fn limit(&self, buf: Seq<u8>) -> int {
        if self.end <= buf.len() {
            self.end as int
        } else {
            buf.len() as int
        }
    }

    /// The bytes of `buf` that are still to be read.
    pub open spec fn remaining(&self, buf: Seq<u8>) -> Seq<u8> {
        if self.index <= self.limit(buf) {
            buf.subrange(self.index as int, self.limit(buf))
        } else {
            Seq::empty()
        }
    }

    /// A reader at the front of a buffer, bounded by the buffer alone.
    pub fn new() -> (r: Reader)
        ensures
            r.index == 0,
            r.end == usize::MAX,
    {
        Reader { index: 0, end: usize::MAX }
    }

    /// A reader at the front of a buffer that stops after `len` bytes.
    pub fn new_with_len(len: usize) -> (r: Reader)
        ensures
            r.index == 0,
            r.end == len,
    {
        Reader { index: 0, end: len }
    }

    /// The number of bytes of `buf` still to be read.
    pub fn available(&self, buf: &[u8]) -> (n: usize)
        ensures
            n == self.remaining(buf@).len(),
    {
        let limit = if self.end <= buf.len() { self.end } else { buf.len() };
        if self.index <= limit {
            limit - self.index
        } else {
            0
        }
    }

    /// Whether nothing is left to read.
    pub fn eof(&self, buf: &[u8]) -> (b: bool)
        ensures
            b == (self.remaining(buf@).len() == 0),
    {
        self.available(buf) == 0
    }

    /// Reads one byte.
    pub fn read_byte(&mut self, buf: &[u8]) -> (r: Result<u8, Error>)
        ensures
            decoded(*old(self), *final(self), buf@, r, parse_byte(old(self).remaining(buf@))),
    {
        if self.available(buf) < 1 {
            return Err(Error::Truncated);
        }
        let byte = buf[self.index];
        self.index = self.index + 1;
        assert(self.remaining(buf@) =~= old(self).remaining(buf@).skip(1));
        Ok(byte)
    }

    /// Borrows the next `len` bytes and moves past them.
    pub fn read_slice<'a>(&mut self, len: usize, buf: &'a [u8]) -> (r: Result<&'a [u8], Error>)
        ensures
            match r {
                Ok(bytes) => bytes@ == old(self).remaining(buf@).take(len as int) && moved(
                    *old(self),
                    *final(self),
                    buf@,
                    len as nat,
                ),
                Err(e) => len > old(self).remaining(buf@).len() && e == Error::Truncated
                    && *final(self) == *old(self),
            },
    {
        if self.available(buf) < len {
            return Err(Error::Truncated);
        }
        if len == 0 {
            let bytes = vstd::slice::slice_subrange(buf, 0, 0);
            assert(bytes@ =~= self.remaining(buf@).take(0));
            assert(self.remaining(buf@) =~= self.remaining(buf@).skip(0));
            return Ok(bytes);
        }
        let bytes = vstd::slice::slice_subrange(buf, self.index, self.index + len);
        assert(bytes@ =~= self.remaining(buf@).take(len as int));
        self.index = self.index + len;
        assert(self.remaining(buf@) =~= old(self).remaining(buf@).skip(len as int));
        Ok(bytes)
    }
}

/// The first byte of `s`.
pub open spec fn parse_byte(s: Seq<u8>) -> Result<(u8, nat), Error> {
    if s.len() < 1 {
        Err(Error::Truncated)
    } else {
        Ok((s[0], 1nat))
    }
}

} // verus!
