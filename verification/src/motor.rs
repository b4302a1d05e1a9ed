//! Motor index assignment.

use vstd::prelude::*;

use crate::coords::Axis;

verus! {

pub const M_X: usize = 0;
pub const M_Y: usize = 1;
pub const M_Z: usize = 2;
pub const M_C: usize = 3;

/// Which motor index drives a linear axis.
pub fn axis_to_motor(axis: Axis) -> (m: usize)
    ensures
        m == match axis {
            Axis::X => M_X,
            Axis::Y => M_Y,
            Axis::Z => M_Z,
        },
{
    match axis {
        Axis::X => M_X,
        Axis::Y => M_Y,
        Axis::Z => M_Z,
    }
}

} // verus!
