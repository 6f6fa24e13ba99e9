//! Fixed-layout records: every field at a constant offset, always present.
use vstd::prelude::*;
use crate::indirect::Located;
use crate::scalar::{Endian, scalar_at};
use crate::UOffset;

verus! {

/// A struct at `pos`, whose fields lie at offsets that the schema fixes.
pub struct Struct {
    pub pos: usize,
}

impl Located for Struct {
    open spec fn located_at(pos: int) -> Self {
        Struct { pos: pos as usize }
    }

    fn at(pos: usize) -> Self {
        Struct { pos }
    }
}

impl Struct {
    /// The scalar at offset `off`.
    pub fn get_field<T: Endian>(&self, buf: &[u8], off: UOffset) -> (r: T)
        requires
            self.pos + off + T::byte_len() <= buf@.len(),
        ensures
            r == scalar_at::<T>(buf@, self.pos + off),
    {
        let _len: usize = buf.len();
        T::read_le(buf, self.pos + off as usize)
    }

    /// The view that the offset stored at `off` points to, counted from `off`.
    pub fn get_ref<T: Located>(&self, buf: &[u8], off: UOffset) -> (r: T)
        requires
            self.pos + off + 4 <= buf@.len(),
            self.pos + off + scalar_at::<u32>(buf@, self.pos + off) <= usize::MAX,
        ensures
            r == T::located_at(self.pos + off + scalar_at::<u32>(buf@, self.pos + off)),
    {
        let _len: usize = buf.len();
        let p = self.pos + off as usize;
        let o = u32::read_le(buf, p);
        T::at(p + o as usize)
    }

    /// The struct nested inline at `off`.
    pub fn get_struct<T: Located>(&self, buf: &[u8], off: UOffset) -> (r: T)
        requires
            self.pos + off <= buf@.len(),
        ensures
            r == T::located_at(self.pos + off),
    {
        let _len: usize = buf.len();
        T::at(self.pos + off as usize)
    }
}

} // verus!
