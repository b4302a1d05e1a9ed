//! Axes and coordinate systems of the machine.

use vstd::prelude::*;

verus! {

/// A linear machine axis.
#[derive(Clone, Copy, Debug, PartialEq, Eq, Structural)]
pub enum Axis {
    X,
    Y,
    Z,
}

/// A coordinate system. `Machine` is the raw machine frame; `Grinder` and
/// `Work` are offset from it by settable origins.
#[derive(Clone, Copy, Debug, PartialEq, Eq, Structural)]
pub enum CoordSys {
    Machine,
    Grinder,
    Work,
}

} // verus!
