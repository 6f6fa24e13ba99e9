//! How an element of a container turns into a value: stored inline, or
//! reached through a self-relative offset.
use vstd::prelude::*;
use crate::scalar::{Endian, scalar_at};
use crate::UOffset;
use std::marker::PhantomData;

verus! {

/// A view that stands at a position of a buffer and owns none of its bytes.
pub trait Located: Sized {
    /// The view at position `pos`.
    spec fn located_at(pos: int) -> Self;

    fn at(pos: usize) -> (r: Self)
        ensures
            r == Self::located_at(pos as int),
    ;
}

/// Reads element `idx` of a run of elements that starts at `data`, giving an `I`.
pub trait Indirect<I>: Sized {
    /// Distance in bytes between consecutive stored elements.
    spec fn stride() -> nat;

    /// Whether element `idx` of the run at `data` can be read from `b`.
    spec fn readable(b: Seq<u8>, data: int, idx: int) -> bool;

    /// The value of element `idx` of the run at `data`.
    spec fn element(b: Seq<u8>, data: int, idx: int) -> I;

    fn read(buf: &[u8], data: usize, idx: usize) -> (r: I)
        requires
            Self::readable(buf@, data as int, idx as int),
        ensures
            r == Self::element(buf@, data as int, idx as int),
    ;
}

/// Scalars are stored inline: their bytes are the value.
impl<T: Endian> Indirect<T> for T {
    open spec fn stride() -> nat {
        T::byte_len()
    }

    open spec fn readable(b: Seq<u8>, data: int, idx: int) -> bool {
        0 <= data && 0 <= idx && data + (idx + 1) * T::byte_len() <= b.len()
    }

    open spec fn element(b: Seq<u8>, data: int, idx: int) -> T {
        scalar_at::<T>(b, data + idx * T::byte_len())
    }

    fn read(buf: &[u8], data: usize, idx: usize) -> T {
        let size = T::byte_count();
        let _len: usize = buf.len();
        proof {
            assert((idx + 1) * size == idx * size + size) by (nonlinear_arith);
        }
        T::read_le(buf, data + idx * size)
    }
}

/// A stored self-relative offset to a value of type `T` elsewhere in the buffer.
pub struct Offset<T> {
    pub inner: UOffset,
    pub _t: PhantomData<T>,
}

/// The stored element is an unsigned offset, counted from the element's own
/// position, to the view it designates.
impl<T: Located> Indirect<T> for Offset<T> {
    open spec fn stride() -> nat {
        4
    }

    open spec fn readable(b: Seq<u8>, data: int, idx: int) -> bool {
        0 <= data && 0 <= idx && data + idx * 4 + 4 <= b.len() && data + idx * 4
            + scalar_at::<u32>(b, data + idx * 4) <= usize::MAX
    }

    open spec fn element(b: Seq<u8>, data: int, idx: int) -> T {
        T::located_at(data + idx * 4 + scalar_at::<u32>(b, data + idx * 4))
    }

    fn read(buf: &[u8], data: usize, idx: usize) -> T {
        let slot = data + idx * 4;
        let off = u32::read_le(buf, slot);
        T::at(slot + off as usize)
    }
}

} // verus!
