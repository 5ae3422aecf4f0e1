//! Viewport rendering and cell-edit state machine for a grid surface
//! hosted in a text editor: maps cursor positions to logical cell
//! coordinates, renders a sparse table into a bounded viewport, and
//! governs the life cycle of editing a single cell's source text.

pub mod clipboard;
pub mod coords;
pub mod editor;
pub mod format;
pub mod range;
pub mod render;
pub mod table;

use vstd::prelude::*;

verus! {

/// The sum of two counters; the inputs must not overflow it.
pub fn add(left: u64, right: u64) -> (r: u64)
    requires
        left + right <= u64::MAX,
    ensures
        r == left + right,
{
    left + right
}

} // verus!

