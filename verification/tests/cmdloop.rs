use spark_core::commands::{on_receive, settle, CmdAction, ExecOutcome};
use spark_core::motion::Mode;

#[test]
fn command_loop_decisions() {
    assert_eq!(on_receive(true), CmdAction::Discard);
    assert_eq!(on_receive(false), CmdAction::Execute);
    assert_eq!(settle(None, true, Mode::Idle), CmdAction::Fault);
    assert_eq!(settle(Some(ExecOutcome::Done), true, Mode::EdmMove), CmdAction::Drain);
    let feed = Some(ExecOutcome::FeedDispatched);
    assert_eq!(settle(feed, true, Mode::EdmMove), CmdAction::Wait);
    assert_eq!(settle(feed, false, Mode::Rapid), CmdAction::Chain);
    assert_eq!(settle(feed, true, Mode::Idle), CmdAction::Drain);
    assert_eq!(settle(feed, false, Mode::Idle), CmdAction::Drain);
}
