//! Evolvable records whose fields are located through a vtable.
use vstd::prelude::*;
use crate::indirect::Located;
use crate::scalar::{Endian, lemma_splice_elsewhere, lemma_write_then_read, scalar_at, splice};
use crate::VOffset;

verus! {

/// A table at `pos`: an `i32` back-reference to its vtable, then field bytes.
///
/// The vtable holds its own size in bytes, the table's size, then one `u16`
/// per field slot: the field's byte offset from the table, or 0 when absent.
pub struct Table {
    pub pos: usize,
}

impl Located for Table {
    open spec fn located_at(pos: int) -> Self {
        Table { pos: pos as usize }
    }

    fn at(pos: usize) -> Self {
        Table { pos }
    }
}

impl Table {
    /// The vtable lies at the table's position minus the stored back-reference.
    pub open spec fn vtable_pos(&self, b: Seq<u8>) -> int {
        self.pos - scalar_at::<i32>(b, self.pos as int)
    }

    /// The vtable's length in bytes, from its first entry.
    pub open spec fn vtable_size(&self, b: Seq<u8>) -> int {
        scalar_at::<u16>(b, self.vtable_pos(b)) as int
    }

    /// Where the vtable entry of `field` lies.
    pub open spec fn slot_pos(&self, b: Seq<u8>, field: VOffset) -> int {
        self.vtable_pos(b) + 4 + 2 * field
    }

    /// Whether the vtable is long enough to hold an entry for `field`.
    pub open spec fn has_slot(&self, b: Seq<u8>, field: VOffset) -> bool {
        4 + 2 * field + 2 <= self.vtable_size(b)
    }

    /// The back-reference and the whole vtable lie inside `b`.
    pub open spec fn well_formed(&self, b: Seq<u8>) -> bool {
        &&& self.pos + 4 <= b.len()
        &&& 0 <= self.vtable_pos(b)
        &&& self.vtable_pos(b) + 2 <= b.len()
        &&& self.vtable_pos(b) + self.vtable_size(b) <= b.len()
    }

    /// The offset of `field` from the table, or `None` where it is absent:
    /// past the end of the vtable, or marked 0.
    pub open spec fn field_offset(&self, b: Seq<u8>, field: VOffset) -> Option<VOffset> {
        if self.has_slot(b, field) {
            let v = scalar_at::<u16>(b, self.slot_pos(b, field));
            if v == 0 {
                None
            } else {
                Some(v)
            }
        } else {
            None
        }
    }

    /// A present scalar `field` of type `T` lies inside `b`.
    pub open spec fn field_fits<T: Endian>(&self, b: Seq<u8>, field: VOffset) -> bool {
        match self.field_offset(b, field) {
            Some(v) => self.pos + v + T::byte_len() <= b.len(),
            None => true,
        }
    }

    /// The value of scalar `field`, or `def` where it is absent.
    pub open spec fn field_value<T: Endian>(&self, b: Seq<u8>, field: VOffset, def: T) -> T {
        match self.field_offset(b, field) {
            Some(v) => scalar_at::<T>(b, self.pos + v),
            None => def,
        }
    }

    /// A present reference `field` holds an offset inside `b` whose target
    /// position fits in `usize`.
    pub open spec fn ref_fits(&self, b: Seq<u8>, field: VOffset) -> bool {
        match self.field_offset(b, field) {
            Some(v) => self.pos + v + 4 <= b.len() && self.pos + v + scalar_at::<u32>(
                b,
                self.pos + v,
            ) <= usize::MAX,
            None => true,
        }
    }

    /// The view that reference `field` designates, one offset hop away.
    pub open spec fn ref_target<T: Located>(&self, b: Seq<u8>, field: VOffset) -> Option<T> {
        match self.field_offset(b, field) {
            Some(v) => Some(
                T::located_at(self.pos + v + scalar_at::<u32>(b, self.pos + v)),
            ),
            None => None,
        }
    }

    /// A present struct `field` starts inside `b`.
    pub open spec fn struct_fits(&self, b: Seq<u8>, field: VOffset) -> bool {
        match self.field_offset(b, field) {
            Some(v) => self.pos + v <= b.len(),
            None => true,
        }
    }

    /// The struct stored inline at `field`.
    pub open spec fn struct_target<T: Located>(&self, b: Seq<u8>, field: VOffset) -> Option<T> {
        match self.field_offset(b, field) {
            Some(v) => Some(T::located_at(self.pos + v)),
            None => None,
        }
    }

    fn get_optional_field_offset(&self, buf: &[u8], field: VOffset) -> (r: Option<VOffset>)
        requires
            self.well_formed(buf@),
        ensures
            r == self.field_offset(buf@, field),
    {
        let _len: usize = buf.len();
        let soff = i32::read_le(buf, self.pos);
        let vtable: usize = if soff >= 0 {
            self.pos - soff as usize
        } else {
            self.pos + (-(soff as i64)) as usize
        };
        let vtsize = u16::read_le(buf, vtable);
        if 2 * (field as usize) + 6 <= vtsize as usize {
            let voff = u16::read_le(buf, vtable + 4 + 2 * (field as usize));
            if voff != 0 {
                return Some(voff);
            }
        }
        None
    }

    /// Scalar `field`, or `def` where it is absent.
    pub fn get_field<T: Endian>(&self, buf: &[u8], field: VOffset, def: T) -> (r: T)
        requires
            self.well_formed(buf@),
            self.field_fits::<T>(buf@, field),
        ensures
            r == self.field_value(buf@, field, def),
    {
        let _len: usize = buf.len();
        match self.get_optional_field_offset(buf, field) {
            Some(v) => T::read_le(buf, self.pos + v as usize),
            None => def,
        }
    }

    /// The view that reference `field` points to, or `None` where it is absent.
    pub fn get_ref<T: Located>(&self, buf: &[u8], field: VOffset) -> (r: Option<T>)
        requires
            self.well_formed(buf@),
            self.ref_fits(buf@, field),
        ensures
            r == self.ref_target::<T>(buf@, field),
    {
        match self.get_optional_field_offset(buf, field) {
            Some(v) => {
                let p = self.pos + v as usize;
                let off = u32::read_le(buf, p);
                Some(T::at(p + off as usize))
            },
            None => None,
        }
    }

    /// The struct stored inline at `field`, or `None` where it is absent.
    pub fn get_struct<T: Located>(&self, buf: &[u8], field: VOffset) -> (r: Option<T>)
        requires
            self.well_formed(buf@),
            self.struct_fits(buf@, field),
        ensures
            r == self.struct_target::<T>(buf@, field),
    {
        let _len: usize = buf.len();
        match self.get_optional_field_offset(buf, field) {
            Some(v) => Some(T::at(self.pos + v as usize)),
            None => None,
        }
    }

    /// Overwrites present scalar `field` in place; the vtable is left as it is.
    pub fn set_field<T: Endian>(&self, buf: &mut Vec<u8>, field: VOffset, val: T)
        requires
            self.well_formed(old(buf)@),
            self.field_offset(old(buf)@, field).is_some(),
            self.field_fits::<T>(old(buf)@, field),
        ensures
            final(buf)@ == splice(
                old(buf)@,
                self.pos + self.field_offset(old(buf)@, field)->Some_0,
                T::to_le_seq(val),
            ),
    {
        let _len: usize = buf.len();
        match self.get_optional_field_offset(buf.as_slice(), field) {
            Some(v) => val.write_le(buf, self.pos + v as usize),
            None => {},
        }
    }

    /// Whether `field` is present.
    pub fn check_field(&self, buf: &[u8], field: VOffset) -> (r: bool)
        requires
            self.well_formed(buf@),
        ensures
            r == self.field_offset(buf@, field).is_some(),
    {
        self.get_optional_field_offset(buf, field).is_some()
    }
}

/// A field past the end of the vtable, or whose entry is 0, is absent and
/// reads as the default it is given.
pub proof fn lemma_absent_field<T: Endian>(t: Table, b: Seq<u8>, field: VOffset, def: T)
    requires
        !t.has_slot(b, field) || scalar_at::<u16>(b, t.slot_pos(b, field)) == 0,
    ensures
        t.field_offset(b, field).is_none(),
        t.field_value(b, field, def) == def,
{
}

/// Setting a present scalar field and then reading it gives the value set,
/// whatever default the read is given. The field's bytes must lie clear of
/// the table's back-reference and of its vtable.
pub proof fn lemma_set_then_get<T: Endian>(t: Table, b: Seq<u8>, field: VOffset, val: T, def: T)
    requires
        t.well_formed(b),
        t.field_offset(b, field).is_some(),
        t.field_fits::<T>(b, field),
        t.field_offset(b, field)->Some_0 >= 4,
        t.pos + t.field_offset(b, field)->Some_0 + T::byte_len() <= t.vtable_pos(b)
            || t.vtable_pos(b) + t.vtable_size(b) <= t.pos + t.field_offset(b, field)->Some_0,
    ensures
        ({
            let b2 = splice(b, t.pos + t.field_offset(b, field)->Some_0, T::to_le_seq(val));
            &&& t.well_formed(b2)
            &&& t.field_offset(b2, field) == t.field_offset(b, field)
            &&& t.field_value(b2, field, def) == val
        }),
{
    let p = t.pos + t.field_offset(b, field)->Some_0;
    let enc = T::to_le_seq(val);
    T::lemma_le_round_trip(val);
    let b2 = splice(b, p, enc);
    let vt = t.vtable_pos(b);
    lemma_splice_elsewhere(b, p, enc, t.pos as int, 4);
    lemma_splice_elsewhere(b, p, enc, vt, 2);
    lemma_splice_elsewhere(b, p, enc, t.slot_pos(b, field), 2);
    assert(t.vtable_pos(b2) == vt);
    assert(t.vtable_size(b2) == t.vtable_size(b));
    lemma_write_then_read::<T>(b, p, val);
}
} // verus!
