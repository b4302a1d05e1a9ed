//! Outcomes of command execution, and the command loop's decisions around it.

use vstd::prelude::*;

use crate::motion::Mode;

verus! {

/// Capacity of the command queue.
pub const CMD_QUEUE_CAP: usize = 64;

/// Hardware fault detected during execution; the machine then enters fault
/// state. Cancellation is not an error.
#[derive(Debug)]
pub struct HwFault;

/// Result of one successful execution.
#[derive(Clone, Copy, Debug, PartialEq, Eq, Structural)]
pub enum ExecOutcome {
    /// The command is self-contained; the machine is drained afterwards,
    /// which marks the command complete.
    Done,
    /// A feed was dispatched; a following feed may chain onto it before the
    /// machine is drained.
    FeedDispatched,
}

/// One poll of the settle after a command, once motion is idle and the
/// pulser was asked to de-energize: a pulser fault fails it; otherwise it is
/// done when the pulser, the pump and the wire feed have all settled, and
/// `None` means keep waiting.
pub fn drain_check(
    pulser_fault: bool,
    pulser_settled: bool,
    pump_settled: bool,
    wirefeed_settled: bool,
) -> (r: Option<Result<(), HwFault>>)
    ensures
        pulser_fault ==> r matches Some(Err(_)),
        !pulser_fault && pulser_settled && pump_settled && wirefeed_settled ==> r matches Some(
            Ok(_),
        ),
        !pulser_fault && !(pulser_settled && pump_settled && wirefeed_settled) ==> r is None,
{
    if pulser_fault {
        return Some(Err(HwFault));
    }
    if pulser_settled && pump_settled && wirefeed_settled {
        return Some(Ok(()));
    }
    None
}

/// What the command loop does next.
#[derive(Clone, Copy, Debug, PartialEq, Eq, Structural)]
pub enum CmdAction {
    /// Drop the command just received: a cancel window is open or the
    /// machine is faulted.
    Discard,
    /// Run the command just received.
    Execute,
    /// Drain the machine; the command is complete once it has settled.
    Drain,
    /// Keep a dispatched feed's chain open: poll again a tick later.
    Wait,
    /// Leave the feed running: the next queued command chains onto it.
    Chain,
    /// Execution or settling failed: enter fault.
    Fault,
}

/// On receiving a command: run it unless the canceler is active.
pub open spec fn on_receive_spec(active: bool) -> CmdAction {
    if active {
        CmdAction::Discard
    } else {
        CmdAction::Execute
    }
}

pub fn on_receive(active: bool) -> (r: CmdAction)
    ensures
        r == on_receive_spec(active),
{
    if active {
        CmdAction::Discard
    } else {
        CmdAction::Execute
    }
}

/// After a command ran (`outcome` is `None` when it failed) and at each poll
/// of a dispatched feed: a self-contained command drains; a feed keeps its
/// chain open while the queue is empty and motion runs, chains once a command
/// is queued while motion still runs, and drains once motion is idle.
pub open spec fn settle_spec(outcome: Option<ExecOutcome>, queue_empty: bool, mode: Mode) -> CmdAction {
    match outcome {
        None => CmdAction::Fault,
        Some(ExecOutcome::Done) => CmdAction::Drain,
        Some(ExecOutcome::FeedDispatched) => if mode == Mode::Idle {
            CmdAction::Drain
        } else if queue_empty {
            CmdAction::Wait
        } else {
            CmdAction::Chain
        },
    }
}

pub fn settle(outcome: Option<ExecOutcome>, queue_empty: bool, mode: Mode) -> (r: CmdAction)
    ensures
        r == settle_spec(outcome, queue_empty, mode),
{
    match outcome {
        None => CmdAction::Fault,
        Some(ExecOutcome::Done) => CmdAction::Drain,
        Some(ExecOutcome::FeedDispatched) => if matches!(mode, Mode::Idle) {
            CmdAction::Drain
        } else if queue_empty {
            CmdAction::Wait
        } else {
            CmdAction::Chain
        },
    }
}

/// A dispatched feed never leaves the machine undrained at rest: once motion
/// is idle it drains, and while motion runs it either waits or chains.
pub proof fn law_feed_settles(queue_empty: bool, mode: Mode)
    ensures
        mode == Mode::Idle ==> settle_spec(Some(ExecOutcome::FeedDispatched), queue_empty, mode)
            == CmdAction::Drain,
        mode != Mode::Idle ==> settle_spec(Some(ExecOutcome::FeedDispatched), queue_empty, mode)
            is Wait || settle_spec(Some(ExecOutcome::FeedDispatched), queue_empty, mode) is Chain,
{
}

} // verus!
