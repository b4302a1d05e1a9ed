//! Per-motor step pulse sequencing for the timer-driven step generator.
//!
//! Each motor runs a three-phase machine (idle, pulse high, pulse low), one
//! phase per timer tick: from idle it starts a step toward the target,
//! setting the direction pin first when it changes; the step is counted when
//! the pulse falls. The caller drives the pins as told.

use vstd::prelude::*;

verus! {

#[derive(Clone, Copy, Debug, PartialEq, Eq, Structural)]
pub enum StepState {
    Idle,
    PulseHigh,
    PulseLow,
}

/// Pin levels to write on this tick; `None` leaves a pin as it is.
#[derive(Clone, Copy, Debug, PartialEq, Eq, Structural)]
pub struct PinWrites {
    pub dir: Option<bool>,
    pub step: Option<bool>,
}

pub struct MotorState {
    target: i32,
    current: i32,
    step_state: StepState,
    /// Last level written to the direction pin (true: counting up).
    direction: bool,
}

pub struct MotorStateV {
    pub target: i32,
    pub current: i32,
    pub step_state: StepState,
    pub direction: bool,
}

impl View for MotorState {
    type V = MotorStateV;

    closed spec fn view(&self) -> MotorStateV {
        MotorStateV {
            target: self.target,
            current: self.current,
            step_state: self.step_state,
            direction: self.direction,
        }
    }
}

/// A raised pulse always has room to count in its direction.
pub open spec fn motor_wf(m: MotorStateV) -> bool {
    m.step_state == StepState::PulseHigh ==> (if m.direction {
        m.current < i32::MAX
    } else {
        m.current > i32::MIN
    })
}

/// One tick of the machine: the next state and the pin writes.
pub open spec fn process_spec(m: MotorStateV) -> (MotorStateV, PinWrites) {
    match m.step_state {
        StepState::Idle => if m.current != m.target {
            let dir = m.target > m.current;
            (
                MotorStateV { step_state: StepState::PulseHigh, direction: dir, ..m },
                PinWrites {
                    dir: if dir != m.direction {
                        Some(dir)
                    } else {
                        None
                    },
                    step: Some(true),
                },
            )
        } else {
            (m, PinWrites { dir: None, step: None })
        },
        StepState::PulseHigh => (
            MotorStateV {
                step_state: StepState::PulseLow,
                current: if m.direction {
                    (m.current + 1) as i32
                } else {
                    (m.current - 1) as i32
                },
                ..m
            },
            PinWrites { dir: None, step: Some(false) },
        ),
        StepState::PulseLow => (
            MotorStateV { step_state: StepState::Idle, ..m },
            PinWrites { dir: None, step: None },
        ),
    }
}

impl MotorState {
    pub closed spec fn wf(&self) -> bool {
        motor_wf(self@)
    }

    /// At step 0, idle, direction pin low.
    pub fn new() -> (r: Self)
        ensures
            r.wf(),
            r@ == (MotorStateV {
                target: 0,
                current: 0,
                step_state: StepState::Idle,
                direction: false,
            }),
    {
        MotorState { target: 0, current: 0, step_state: StepState::Idle, direction: false }
    }

    pub fn set_target(&mut self, target: i32)
        requires
            old(self).wf(),
        ensures
            final(self).wf(),
            final(self)@ == (MotorStateV { target, ..old(self)@ }),
    {
        self.target = target;
    }

    pub fn current(&self) -> (r: i32)
        ensures
            r == self@.current,
    {
        self.current
    }

    /// Advance one timer tick.
    pub fn process(&mut self) -> (w: PinWrites)
        requires
            old(self).wf(),
        ensures
            final(self).wf(),
            (final(self)@, w) == process_spec(old(self)@),
    {
        match self.step_state {
            StepState::Idle => {
                if self.current != self.target {
                    let dir = self.target > self.current;
                    let dir_write = if dir != self.direction {
                        Some(dir)
                    } else {
                        None
                    };
                    self.direction = dir;
                    self.step_state = StepState::PulseHigh;
                    PinWrites { dir: dir_write, step: Some(true) }
                } else {
                    PinWrites { dir: None, step: None }
                }
            },
            StepState::PulseHigh => {
                self.step_state = StepState::PulseLow;
                if self.direction {
                    self.current = self.current + 1;
                } else {
                    self.current = self.current - 1;
                }
                PinWrites { dir: None, step: Some(false) }
            },
            StepState::PulseLow => {
                self.step_state = StepState::Idle;
                PinWrites { dir: None, step: None }
            },
        }
    }
}

/// Three ticks from idle with the target held make one whole step: the
/// counter moves one toward the target, the pulse goes high then low, and
/// the machine is idle again. At the target, idle ticks change nothing.
pub proof fn law_one_step_per_cycle(m: MotorStateV)
    requires
        m.step_state == StepState::Idle,
    ensures
        ({
            let (m1, w1) = process_spec(m);
            let (m2, w2) = process_spec(m1);
            let (m3, w3) = process_spec(m2);
            &&& m.current != m.target ==> {
                &&& m3.current == (if m.target > m.current {
                    m.current + 1
                } else {
                    m.current - 1
                })
                &&& m3.step_state == StepState::Idle
                &&& m3.target == m.target
                &&& w1.step == Some(true) && w2.step == Some(false) && w3.step is None
            }
            &&& m.current == m.target ==> m1 == m && w1 == (PinWrites { dir: None, step: None })
        }),
{
}

/// The state after `n` ticks.
pub open spec fn run_ticks(m: MotorStateV, n: nat) -> MotorStateV
    decreases n,
{
    if n == 0 {
        m
    } else {
        run_ticks(process_spec(m).0, (n - 1) as nat)
    }
}

/// The motor reaches a held target: from idle, `3 * d` ticks bring a counter
/// `d` steps away onto the target, idle again.
pub proof fn law_reaches_target(m: MotorStateV, d: nat)
    requires
        m.step_state == StepState::Idle,
        d == (if m.target >= m.current {
            m.target - m.current
        } else {
            m.current - m.target
        }),
    ensures
        run_ticks(m, 3 * d).current == m.target,
        run_ticks(m, 3 * d).step_state == StepState::Idle,
        run_ticks(m, 3 * d).target == m.target,
    decreases d,
{
    if d > 0 {
        let m1 = process_spec(m).0;
        let m2 = process_spec(m1).0;
        let m3 = process_spec(m2).0;
        law_one_step_per_cycle(m);
        assert(run_ticks(m, 3 * d) == run_ticks(m3, (3 * d - 3) as nat)) by {
            assert(run_ticks(m, 3 * d) == run_ticks(m1, (3 * d - 1) as nat));
            assert(run_ticks(m1, (3 * d - 1) as nat) == run_ticks(m2, (3 * d - 2) as nat));
            assert(run_ticks(m2, (3 * d - 2) as nat) == run_ticks(m3, (3 * d - 3) as nat));
        }
        assert(3 * d - 3 == 3 * ((d - 1) as nat));
        law_reaches_target(m3, (d - 1) as nat);
    }
}

} // verus!
