//! Zero-copy read access to little-endian, offset-addressed binary buffers:
//! scalars, evolvable tables, fixed-layout structs, vectors and strings.
//!
//! Every view is a position into a buffer that the caller passes in; it owns
//! no bytes. Nothing here validates a buffer: each accessor states in its
//! precondition which bytes it reads and where they must lie, and the caller
//! is trusted to hand over a buffer that meets it. The one bound that is
//! checked at run time is a vector's length.
pub mod fixed;
pub mod indirect;
pub mod scalar;
pub mod table;
pub mod text;
pub mod vector;

pub use fixed::Struct;
pub use indirect::{Indirect, Located, Offset};
pub use scalar::Endian;
pub use table::Table;
pub use text::String;
pub use vector::{VecIter, Vector};

use vstd::prelude::*;

verus! {

/// Unsigned 32-bit byte offset, counted from the position that stores it.
pub type UOffset = u32;

/// Signed 32-bit byte offset: a table's back-reference to its vtable.
pub type SOffset = i32;

/// Unsigned 16-bit offset within a vtable; 0 marks an absent field.
pub type VOffset = u16;

} // verus!
