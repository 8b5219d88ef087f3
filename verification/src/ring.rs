use vstd::prelude::*;

verus! {

/// A fixed-length circular buffer, the storage of the delay lines of the
/// effects (delay, flanger, comb and allpass filters).
///
/// Its view is the window of the last `len` values written, oldest first:
/// the cursor points at the oldest slot, which is the next one written.
pub struct RingBuffer<T> {
    buf: Vec<T>,
    pos: usize,
}

/// The index of the buffer slot that holds window position `i`.
pub open spec fn slot(pos: int, len: int, i: int) -> int {
    if pos + i < len { pos + i } else { pos + i - len }
}

/// The window after `d` steps back from the cursor: `d` in `1..=len`
/// gives the value written `d` writes ago, and `0` gives the oldest value.
pub open spec fn back_index(len: int, d: int) -> int {
    if d == 0 { 0 } else { len - d }
}

impl<T: Copy> RingBuffer<T> {
    pub closed spec fn window(&self) -> Seq<T> {
        Seq::new(self.buf@.len(), |i: int| self.buf@[slot(self.pos as int, self.buf@.len() as int, i)])
    }

    pub closed spec fn wf(&self) -> bool {
        self.buf@.len() > 0 && self.pos < self.buf@.len()
    }

    /// A buffer of `len` slots all holding `fill`.
    pub fn new(len: usize, fill: T) -> (r: Self)
        requires
            len > 0,
        ensures
            r.wf(),
            r.window() == Seq::new(len as nat, |i: int| fill),
    {
        let mut buf: Vec<T> = Vec::new();
        let mut i: usize = 0;
        while i < len
            invariant
                i <= len,
                buf@ == Seq::new(i as nat, |k: int| fill),
            decreases len - i,
        {
            buf.push(fill);
            i = i + 1;
            assert(buf@ =~= Seq::new(i as nat, |k: int| fill));
        }
        let r = RingBuffer { buf, pos: 0 };
        assert(r.window() =~= Seq::new(len as nat, |k: int| fill));
        r
    }

    pub fn len(&self) -> (n: usize)
        requires
            self.wf(),
        ensures
            n == self.window().len(),
            n > 0,
    {
        self.buf.len()
    }

    /// The oldest value of the window, in the slot the cursor points at.
    pub fn oldest(&self) -> (v: T)
        requires
            self.wf(),
        ensures
            v == self.window()[0],
    {
        self.buf[self.pos]
    }

    /// The value `d` slots behind the cursor: the value written `d` writes ago
    /// for `d` in `1..=len`, the oldest value for `d == 0`.
    pub fn read_back(&self, d: usize) -> (v: T)
        requires
            self.wf(),
            d <= self.window().len(),
        ensures
            v == self.window()[back_index(self.window().len() as int, d as int)],
    {
        let len = self.buf.len();
        let idx = if d == 0 {
            self.pos
        } else if self.pos >= d {
            self.pos - d
        } else {
            len - d + self.pos
        };
        self.buf[idx]
    }

    /// Overwrites the oldest value of the window.
    pub fn write_oldest(&mut self, v: T)
        requires
            old(self).wf(),
        ensures
            final(self).wf(),
            final(self).window() == old(self).window().update(0, v),
    {
        let p = self.pos;
        self.buf[p] = v;
        assert(self.window() =~= old(self).window().update(0, v));
    }

    /// Moves the cursor one slot on: the oldest value becomes the newest.
    pub fn advance(&mut self)
        requires
            old(self).wf(),
        ensures
            final(self).wf(),
            final(self).window() == old(self).window().drop_first().push(old(self).window()[0]),
    {
        if self.pos == self.buf.len() - 1 {
            self.pos = 0;
        } else {
            self.pos = self.pos + 1;
        }
        assert(self.window() =~= old(self).window().drop_first().push(old(self).window()[0]));
    }

    /// Writes `v` as the newest value: the oldest value leaves the window.
    pub fn push(&mut self, v: T)
        requires
            old(self).wf(),
        ensures
            final(self).wf(),
            final(self).window() == old(self).window().drop_first().push(v),
    {
        self.write_oldest(v);
        self.advance();
        assert(self.window() =~= old(self).window().drop_first().push(v));
    }
}

/// A delay line returns what went in: right after `v` is pushed, one step
/// back reads `v`, and `d` steps back reads what was `d - 1` steps back
/// before the push.
pub proof fn lemma_push_then_read_back<T>(w: Seq<T>, v: T, d: int)
    requires
        w.len() > 0,
        1 <= d <= w.len(),
    ensures
        w.drop_first().push(v)[back_index(w.len() as int, 1)] == v,
        d >= 2 ==> w.drop_first().push(v)[back_index(w.len() as int, d)] == w[back_index(w.len() as int, d - 1)],
{
}

} // verus!
