//! Length-prefixed vectors and UTF-8 strings, viewed in place.
use vstd::prelude::*;
use crate::indirect::{Indirect, Located};
use crate::scalar::{Endian, scalar_at};
use std::cmp::Ordering;
use std::marker::PhantomData;

verus! {

/// A vector at `pos`: a `u32` length, then that many elements read through `T`.
pub struct Vector<T, I = T> where T: Indirect<I> {
    pub pos: usize,
    pub _t: PhantomData<(T, I)>,
}

/// A cursor over a vector's elements, in storage order.
pub struct VecIter<T, I = T> where T: Indirect<I> {
    pub vec: Vector<T, I>,
    pub idx: usize,
}

impl<T: Indirect<I>, I> Located for Vector<T, I> {
    open spec fn located_at(pos: int) -> Self {
        Vector { pos: pos as usize, _t: PhantomData }
    }

    fn at(pos: usize) -> Self {
        Vector { pos, _t: PhantomData }
    }
}

impl<T: Indirect<I>, I> Vector<T, I> {
    /// Whether the length header lies inside `b`.
    pub open spec fn header_fits(&self, b: Seq<u8>) -> bool {
        self.pos + 4 <= b.len()
    }

    /// The number of elements recorded in the header.
    pub open spec fn length(&self, b: Seq<u8>) -> nat {
        scalar_at::<u32>(b, self.pos as int) as nat
    }

    /// Where the first element starts.
    pub open spec fn data_pos(&self) -> int {
        self.pos + 4
    }

    /// The header fits and every element it announces can be read.
    pub open spec fn well_formed(&self, b: Seq<u8>) -> bool {
        &&& self.header_fits(b)
        &&& forall|i: int| 0 <= i < self.length(b) ==> #[trigger] T::readable(b, self.data_pos(), i)
    }

    /// The elements, in storage order.
    pub open spec fn elements(&self, b: Seq<u8>) -> Seq<I> {
        Seq::new(self.length(b), |i: int| T::element(b, self.data_pos(), i))
    }

    fn data(&self, buf: &[u8]) -> (r: usize)
        requires
            self.header_fits(buf@),
        ensures
            r == self.data_pos(),
    {
        let _len: usize = buf.len();
        self.pos + 4
    }

    pub fn len(&self, buf: &[u8]) -> (r: usize)
        requires
            self.header_fits(buf@),
        ensures
            r == self.length(buf@),
    {
        u32::read_le(buf, self.pos) as usize
    }

    /// Element `idx`, or `None` past the end.
    pub fn get(&self, buf: &[u8], idx: usize) -> (r: Option<I>)
        requires
            self.well_formed(buf@),
        ensures
            idx < self.length(buf@) ==> r == Some(self.elements(buf@)[idx as int]),
            idx >= self.length(buf@) ==> r.is_none(),
    {
        if idx < self.len(buf) {
            Some(T::read(buf, self.data(buf), idx))
        } else {
            None
        }
    }

    /// A cursor at the first element.
    pub fn iter(&self) -> (r: VecIter<T, I>)
        ensures
            r.vec == *self,
            r.idx == 0,
    {
        VecIter { vec: Vector { pos: self.pos, _t: PhantomData }, idx: 0 }
    }

    /// All elements, in storage order.
    pub fn to_vec(&self, buf: &[u8]) -> (r: Vec<I>)
        requires
            self.well_formed(buf@),
        ensures
            r@ == self.elements(buf@),
    {
        let n = self.len(buf);
        let data = self.data(buf);
        let mut out: Vec<I> = Vec::new();
        let mut i: usize = 0;
        while i < n
            invariant
                n == self.length(buf@),
                data == self.data_pos(),
                self.well_formed(buf@),
                i <= n,
                out@ == self.elements(buf@).take(i as int),
            decreases n - i,
        {
            let e = T::read(buf, data, i);
            out.push(e);
            i = i + 1;
            assert(out@ =~= self.elements(buf@).take(i as int));
        }
        assert(out@ =~= self.elements(buf@));
        out
    }
}

impl<T: Indirect<I>, I> VecIter<T, I> {
    /// The element under the cursor, then one step forward; `None` once past
    /// the end, where the cursor stays.
    pub fn next(&mut self, buf: &[u8]) -> (r: Option<I>)
        requires
            old(self).vec.well_formed(buf@),
        ensures
            final(self).vec == old(self).vec,
            old(self).idx < old(self).vec.length(buf@) ==> r == Some(
                old(self).vec.elements(buf@)[old(self).idx as int],
            ) && final(self).idx == old(self).idx + 1,
            old(self).idx >= old(self).vec.length(buf@) ==> r.is_none() && final(self).idx
                == old(self).idx,
    {
        let idx = self.idx;
        let r = self.vec.get(buf, idx);
        if r.is_some() {
            self.idx = idx + 1;
        }
        r
    }
}

} // verus!
