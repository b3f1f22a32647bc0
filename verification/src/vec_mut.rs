//! A growable byte buffer that serializers write into.

use vstd::prelude::*;

verus! {

/// A byte buffer that grows by appending written bytes.
pub struct VecMut {
    vec: Vec<u8>,
}

impl View for VecMut {
    type V = Seq<u8>;

    closed spec fn view(&self) -> Seq<u8> {
        self.vec@
    }
}

impl VecMut {
    /// An empty buffer.
    pub fn new() -> (res: Self)
        ensures
            res@ == Seq::<u8>::empty(),
    {
        VecMut { vec: Vec::new() }
    }

    /// The number of bytes written so far.
    pub fn len(&self) -> (res: usize)
        ensures
            res == self@.len(),
    {
        self.vec.len()
    }

    /// Appends all of `buf` and reports how many bytes were taken.
    pub fn write(&mut self, buf: &[u8]) -> (res: usize)
        ensures
            final(self)@ == old(self)@ + buf@,
            res == buf@.len(),
    {
        let ghost start = self.vec@;
        let mut i: usize = 0;
        while i < buf.len()
            invariant
                i <= buf@.len(),
                self.vec@ == start + buf@.take(i as int),
            decreases buf@.len() - i,
        {
            self.vec.push(buf[i]);
            i = i + 1;
            assert(self.vec@ =~= start + buf@.take(i as int));
        }
        assert(buf@.take(i as int) =~= buf@);
        buf.len()
    }

    /// Nothing is buffered on the way, so flushing changes nothing.
    pub fn flush(&mut self)
        ensures
            final(self)@ == old(self)@,
    {
    }

    /// The bytes written so far.
    pub fn as_slice(&self) -> (res: &[u8])
        ensures
            res@ == self@,
    {
        self.vec.as_slice()
    }
}

} // verus!

verus! {

/// Writing `first` and then `second` leaves the same bytes as writing both
/// at once.
pub proof fn law_writes_concatenate(before: Seq<u8>, first: Seq<u8>, second: Seq<u8>)
    ensures
        (before + first) + second == before + (first + second),
{
    assert((before + first) + second =~= before + (first + second));
}

} // verus!
