use vstd::prelude::*;

verus! {

/// Model of a memory-backed stream: the source bytes and the cursor.
pub struct CursorView {
    pub pos: nat,
    pub data: Seq<u8>,
}

/// A pull-readable source over a borrowed byte buffer, driven by the
/// codec's read, skip and seek callbacks.
pub struct WrappedSlice<'a> {
    offset: usize,
    buf: &'a [u8],
}

impl<'a> View for WrappedSlice<'a> {
    type V = CursorView;

    closed spec fn view(&self) -> CursorView {
        CursorView { pos: self.offset as nat, data: self.buf@ }
    }
}

impl<'a> WrappedSlice<'a> {
    #[verifier::type_invariant]
    spec fn inv(&self) -> bool {
        self.offset <= self.buf@.len()
    }

    /// A stream positioned at the start of `buf`.
    pub fn new(buf: &'a [u8]) -> (r: Box<Self>)
        ensures
            r@.pos == 0,
            r@.data == buf@,
    {
        Box::new(WrappedSlice { offset: 0, buf })
    }

    /// Bytes left after the cursor.
    pub fn remaining(&self) -> (r: usize)
        ensures
            r == self@.data.len() - self@.pos,
    {
        proof {
            use_type_invariant(self);
        }
        self.buf.len() - self.offset
    }

    /// Moves the cursor to `new_offset`, held to the end of the source, and
    /// returns the new position.
    pub fn seek(&mut self, new_offset: usize) -> (r: usize)
        ensures
            final(self)@.data == old(self)@.data,
            final(self)@.pos == (if new_offset < old(self)@.data.len() {
                new_offset as int
            } else {
                old(self)@.data.len() as int
            }),
            r == final(self)@.pos,
            final(self)@.pos <= final(self)@.data.len(),
    {
        let len = self.buf.len();
        self.offset = if new_offset < len { new_offset } else { len };
        self.offset
    }

    /// Advances the cursor by `n_bytes`, held to the end of the source, and
    /// returns the new position.
    pub fn consume(&mut self, n_bytes: usize) -> (r: usize)
        ensures
            final(self)@.data == old(self)@.data,
            final(self)@.pos == (if old(self)@.pos + n_bytes < old(self)@.data.len() {
                old(self)@.pos + n_bytes
            } else {
                old(self)@.data.len() as int
            }),
            r == final(self)@.pos,
            final(self)@.pos <= final(self)@.data.len(),
    {
        proof {
            use_type_invariant(&*self);
        }
        let len = self.buf.len();
        let offset = self.offset.saturating_add(n_bytes);
        self.offset = if offset < len { offset } else { len };
        self.offset
    }

    /// Copies up to `out.len()` bytes from the cursor into the front of
    /// `out`, advances the cursor past them and returns how many were copied.
    /// At the end of the source it copies nothing and returns 0.
    pub fn read_into(&mut self, out: &mut [u8]) -> (r: usize)
        ensures
            final(self)@.data == old(self)@.data,
            r == (if old(self)@.data.len() - old(self)@.pos < old(out)@.len() {
                old(self)@.data.len() - old(self)@.pos
            } else {
                old(out)@.len() as int
            }),
            final(self)@.pos == old(self)@.pos + r,
            final(self)@.pos <= final(self)@.data.len(),
            final(out)@.len() == old(out)@.len(),
            forall|i: int| 0 <= i < r ==> final(out)@[i] == old(self)@.data[old(self)@.pos + i],
            forall|i: int| r <= i < old(out)@.len() ==> final(out)@[i] == old(out)@[i],
    {
        proof {
            use_type_invariant(&*self);
        }
        let remaining = self.remaining();
        if remaining == 0 {
            return 0;
        }
        let n_read = if remaining < out.len() { remaining } else { out.len() };
        let start = self.offset;
        let len = self.buf.len();
        let mut i: usize = 0;
        while i < n_read
            invariant
                len == self.buf@.len(),
                start == self.offset,
                start + n_read <= self.buf@.len(),
                n_read <= out@.len(),
                out@.len() == old(out)@.len(),
                i <= n_read,
                self@ == old(self)@,
                forall|k: int| 0 <= k < i ==> out@[k] == self.buf@[start + k],
                forall|k: int| i <= k < out@.len() ==> out@[k] == old(out)@[k],
            decreases n_read - i,
        {
            out[i] = self.buf[start + i];
            i = i + 1;
        }
        self.consume(n_read);
        n_read
    }

    /// Skip request from the codec: advances by `n_bytes`, held to the end of
    /// the source (a negative request, seen as an unsigned count, runs to
    /// the end), and returns the new position.
    pub fn skip_by(&mut self, n_bytes: i64) -> (r: i64)
        ensures
            final(self)@.data == old(self)@.data,
            final(self)@.pos == (if n_bytes < 0 || old(self)@.pos + n_bytes
                >= old(self)@.data.len() {
                old(self)@.data.len() as int
            } else {
                old(self)@.pos + n_bytes
            }),
            r == final(self)@.pos as i64,
            final(self)@.pos <= final(self)@.data.len(),
    {
        let len = self.buf.len();
        let n: usize = if n_bytes < 0 {
            len
        } else if n_bytes as u64 > usize::MAX as u64 {
            usize::MAX
        } else {
            n_bytes as u64 as usize
        };
        let pos = self.consume(n);
        #[verifier::truncate]
        (pos as i64)
    }

    /// Seek request from the codec: moves to the absolute position
    /// `n_bytes`, held to the end of the source, and reports whether that
    /// exact position was reached.
    pub fn seek_to(&mut self, n_bytes: i64) -> (r: bool)
        ensures
            final(self)@.data == old(self)@.data,
            final(self)@.pos == (if 0 <= n_bytes < old(self)@.data.len() {
                n_bytes as int
            } else {
                old(self)@.data.len() as int
            }),
            r == (0 <= n_bytes <= old(self)@.data.len()),
            final(self)@.pos <= final(self)@.data.len(),
    {
        let len = self.buf.len();
        if n_bytes < 0 || n_bytes as u64 > len as u64 {
            self.seek(len);
            return false;
        }
        let target = n_bytes as u64 as usize;
        let new_offset = self.seek(target);
        new_offset == target
    }
}

} // verus!
