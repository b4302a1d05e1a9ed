//! Motion controller modes and the per-tick decisions between them.
//!
//! Positions, speeds and rates are floating point and stay with the caller;
//! this module decides, from the mode and what the caller observed, what the
//! tick does to the path and which mode follows.

use vstd::prelude::*;

verus! {

#[derive(Clone, Copy, Debug, PartialEq, Eq, Structural)]
pub enum Mode {
    Idle,
    /// Constant-velocity motion.
    Rapid,
    /// EDM-controlled move, advancing/retracting by pulser feedback.
    EdmMove,
    /// Constant-velocity move that stops by pulser feedback.
    Probing,
}

/// The mode's name in the `stat` p-state.
pub fn mode_name(mode: Mode) -> (r: &'static str)
    ensures
        r@ == match mode {
            Mode::Idle => "idle"@,
            Mode::Rapid => "rapid"@,
            Mode::EdmMove => "edm"@,
            Mode::Probing => "probe"@,
        },
{
    match mode {
        Mode::Idle => "idle",
        Mode::Rapid => "rapid",
        Mode::EdmMove => "edm",
        Mode::Probing => "probe",
    }
}

/// What one tick does to the path.
#[derive(Clone, Copy, Debug, PartialEq, Eq, Structural)]
pub enum TickMove {
    /// Leave the path where it is.
    Hold,
    /// Move forward at the move's feed rate.
    Feed,
    /// Move forward by the EDM advance speed.
    Advance,
    /// Move backward along the path by the EDM retraction speed.
    Retract,
}

/// Which way a tick's movement goes along the path: 1 forward, -1 backward,
/// 0 not at all.
pub open spec fn direction_spec(m: TickMove) -> int {
    match m {
        TickMove::Hold => 0,
        TickMove::Feed => 1,
        TickMove::Advance => 1,
        TickMove::Retract => -1,
    }
}

impl TickMove {
    /// The sign of the tick's path movement: the mover multiplies its speed
    /// by it (a retraction is a negative move).
    pub fn direction(self) -> (r: i8)
        ensures
            r == direction_spec(self),
    {
        match self {
            TickMove::Hold => 0,
            TickMove::Feed => 1,
            TickMove::Advance => 1,
            TickMove::Retract => -1,
        }
    }
}

/// What the caller observed before the tick: probe contact, and whether the
/// open and short rates are above their thresholds.
#[derive(Clone, Copy, Debug, PartialEq, Eq, Structural)]
pub struct TickFeedback {
    pub discharge: bool,
    pub open_above: bool,
    pub short_above: bool,
}

pub open spec fn tick_move_spec(mode: Mode, fb: TickFeedback) -> TickMove {
    match mode {
        Mode::Idle => TickMove::Hold,
        Mode::Rapid => TickMove::Feed,
        Mode::Probing => if fb.discharge {
            TickMove::Hold
        } else {
            TickMove::Feed
        },
        Mode::EdmMove => if fb.open_above {
            TickMove::Advance
        } else if fb.short_above {
            TickMove::Retract
        } else {
            TickMove::Hold
        },
    }
}

/// The mode after the tick, given whether the path then stands at its destination.
pub open spec fn mode_after_spec(mode: Mode, fb: TickFeedback, at_dst: bool) -> Mode {
    match mode {
        Mode::Idle => Mode::Idle,
        Mode::Probing => if fb.discharge || at_dst {
            Mode::Idle
        } else {
            Mode::Probing
        },
        _ => if at_dst {
            Mode::Idle
        } else {
            mode
        },
    }
}

/// The path movement of one tick in `mode`. A probe that touched does not move.
pub fn tick_move(mode: Mode, fb: TickFeedback) -> (r: TickMove)
    ensures
        r == tick_move_spec(mode, fb),
{
    match mode {
        Mode::Idle => TickMove::Hold,
        Mode::Rapid => TickMove::Feed,
        Mode::Probing => if fb.discharge {
            TickMove::Hold
        } else {
            TickMove::Feed
        },
        Mode::EdmMove => if fb.open_above {
            TickMove::Advance
        } else if fb.short_above {
            TickMove::Retract
        } else {
            TickMove::Hold
        },
    }
}

/// The mode after one tick: a move ends when the path reaches its
/// destination, a probe also on contact.
pub fn mode_after(mode: Mode, fb: TickFeedback, at_dst: bool) -> (r: Mode)
    ensures
        r == mode_after_spec(mode, fb, at_dst),
{
    match mode {
        Mode::Idle => Mode::Idle,
        Mode::Probing => if fb.discharge || at_dst {
            Mode::Idle
        } else {
            Mode::Probing
        },
        _ => if at_dst {
            Mode::Idle
        } else {
            mode
        },
    }
}

/// Whether the furthest distance reached is updated after the tick: only
/// while the move is still in progress.
pub fn tracks_distance(mode_after_tick: Mode) -> (r: bool)
    ensures
        r == (mode_after_tick != Mode::Idle),
{
    mode_after_tick != Mode::Idle
}

/// Whether an EDM segment can be dispatched: when idle (a fresh chain
/// starts), or during an EDM move with a free extension slot.
pub fn ready_for_edm(mode: Mode, can_extend: bool) -> (r: bool)
    ensures
        r == (mode == Mode::Idle || (mode == Mode::EdmMove && can_extend)),
{
    match mode {
        Mode::Idle => true,
        Mode::EdmMove => can_extend,
        _ => false,
    }
}

/// How an EDM segment is dispatched.
#[derive(Clone, Copy, Debug, PartialEq, Eq, Structural)]
pub enum EdmDispatch {
    /// Start a fresh chain from the current position (resetting the furthest distance).
    Start,
    /// Append the segment to the running chain.
    Extend,
}

/// Dispatching an EDM segment is only defined when idle or in an EDM move.
pub fn edm_dispatch(mode: Mode) -> (r: EdmDispatch)
    requires
        mode == Mode::Idle || mode == Mode::EdmMove,
    ensures
        r == (if mode == Mode::Idle {
            EdmDispatch::Start
        } else {
            EdmDispatch::Extend
        }),
{
    if mode == Mode::Idle {
        EdmDispatch::Start
    } else {
        EdmDispatch::Extend
    }
}

/// Idle is at rest: an idle controller neither moves nor leaves idle on a tick,
/// and every move comes to rest once its path reaches the destination.
pub proof fn law_idle_at_rest(mode: Mode, fb: TickFeedback)
    ensures
        tick_move_spec(Mode::Idle, fb) == TickMove::Hold,
        mode_after_spec(Mode::Idle, fb, false) == Mode::Idle,
        mode_after_spec(mode, fb, true) == Mode::Idle,
{
}

/// A probe stops on contact: it does not move that tick and is idle after it.
pub proof fn law_probe_stops_on_contact(fb: TickFeedback, at_dst: bool)
    requires
        fb.discharge,
    ensures
        tick_move_spec(Mode::Probing, fb) == TickMove::Hold,
        mode_after_spec(Mode::Probing, fb, at_dst) == Mode::Idle,
{
}

/// A move keeps going until it is done: a rapid, EDM or probe move that is
/// not at its destination keeps its mode after the tick, unless it is a
/// probe that touched; and a rapid, or a probe without contact, moves
/// forward.
pub proof fn law_moves_keep_going(mode: Mode, fb: TickFeedback, at_dst: bool)
    ensures
        !at_dst && mode != Mode::Idle && !(mode == Mode::Probing && fb.discharge)
            ==> mode_after_spec(mode, fb, at_dst) == mode,
        at_dst ==> mode_after_spec(mode, fb, at_dst) == Mode::Idle,
        direction_spec(tick_move_spec(Mode::Rapid, fb)) == 1,
        !fb.discharge ==> direction_spec(tick_move_spec(Mode::Probing, fb)) == 1,
        mode == Mode::Idle ==> mode_after_spec(mode, fb, at_dst) == Mode::Idle,
{
}

/// EDM gap control: with the open rate at or below its threshold and the
/// short rate above its own, an EDM move goes backward along the path; with
/// the open rate above its threshold it goes forward.
pub proof fn law_edm_gap_direction(fb: TickFeedback)
    ensures
        !fb.open_above && fb.short_above ==> direction_spec(tick_move_spec(Mode::EdmMove, fb))
            == -1,
        fb.open_above ==> direction_spec(tick_move_spec(Mode::EdmMove, fb)) == 1,
        !fb.open_above && !fb.short_above ==> direction_spec(tick_move_spec(Mode::EdmMove, fb))
            == 0,
{
}

} // verus!
