//! Core simulation of a grid snake: toroidal field geometry, direction and
//! turn-request handling, locomotion with fixed-point progress, an arc-length
//! history that trails body fragments behind the head, and collision-driven
//! growth.

pub mod body;
pub mod direction;
pub mod field;
pub mod growth;
pub mod highlight;
pub mod locomotion;
pub mod sim;
pub mod spawn;
pub mod sprites;
pub mod trailing;
pub mod turn_buffer;

use vstd::prelude::*;

verus! {

/// Fixed-point scale: this many progress units make up one grid cell.
pub const PROGRESS_ONE: u64 = 1_000_000;

} // verus!
