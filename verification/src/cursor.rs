use vstd::prelude::*;

verus! {

/// A read position over a borrowed, immutable byte buffer.
///
/// Decoders advance `position` as they consume octets; the buffer itself is
/// never changed. Distinct cursors over the same buffer are independent, so a
/// fresh cursor re-reads the buffer from the start.
pub struct Cursor<'a> {
    pub data: &'a [u8],
    pub position: usize,
}

impl<'a> Cursor<'a> {
    /// A cursor is well formed when its position has not run past the buffer.
    pub open spec fn wf(self) -> bool {
        self.position <= self.data@.len()
    }

    /// A fresh cursor at the start of `data`.
    pub fn new(data: &'a [u8]) -> (c: Cursor<'a>)
        ensures
            c.data@ == data@,
            c.position == 0,
            c.wf(),
    {
        Cursor { data, position: 0 }
    }

    /// How many octets remain unread.
    pub fn remaining(&self) -> (n: usize)
        requires
            self.wf(),
        ensures
            n == self.data@.len() - self.position,
    {
        self.data.len() - self.position
    }

    /// Moves the read position; the target must lie within the buffer.
    pub fn set_position(&mut self, p: usize)
        requires
            old(self).wf(),
            p <= old(self).data@.len(),
        ensures
            final(self).data == old(self).data,
            final(self).position == p,
            final(self).wf(),
    {
        self.position = p;
    }
}

} // verus!
