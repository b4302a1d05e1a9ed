//! Pulser board: register map, result decoding, and the state kept over the
//! I2C driver: what is requested, what the hardware is doing, the fault
//! latch, probe contact, and diagnostic counters. The caller performs the bus
//! transactions the state asks for and reports their outcomes back; the
//! floating-point window ratios stay with the caller.

use vstd::prelude::*;

verus! {

/// 7-bit I2C address of the pulser board.
pub const I2C_ADDR: u8 = 0x3c;

/// RW: bit0 `run` (1 runs, 0 stops).
pub const REG_CTRL: u8 = 0x01;
/// RW: bit0 `mode` (0=probe, 1=cut). Write fails while running.
pub const REG_MODE: u8 = 0x02;
/// RW: pulse current in A; clamped to a supported value. Write fails while running.
pub const REG_CURR: u8 = 0x03;
/// RW: `reserved:1 | exp:2 | frac:5` pulse duration. Write fails while running.
pub const REG_DUR: u8 = 0x04;
/// RW: max duty = `(byte+1)/256`. Write fails while running.
pub const REG_DUTY: u8 = 0x05;
/// R: result byte 0; reading clears the watchdog and updates the result.
pub const REG_RES0: u8 = 0x08;
/// R: result byte 1 (`num_good` in cut mode).
pub const REG_RES1: u8 = 0x09;
/// R + clear: bit0 `fault`, bit1 `wdt` (write 1 to clear `wdt`).
pub const REG_FAULT: u8 = 0x10;

/// Cut-mode result: the fault bit, the open and short window counts (in
/// sevenths), and the number of good pulses since the last read.
#[derive(Clone, Copy, Debug, PartialEq, Eq, Structural)]
pub struct CutResult {
    pub fault: bool,
    pub open_sevenths: u8,
    pub short_sevenths: u8,
    pub num_good: u8,
}

/// Decode `RES0`/`RES1` read in cut mode: bit 7 fault, bits 5..3 open count,
/// bits 2..0 short count. `None` when the two counts exceed the seven windows.
pub fn decode_res_cut(res0: u8, res1: u8) -> (r: Option<CutResult>)
    ensures
        ((res0 / 8) % 8) + (res0 % 8) > 7 ==> r.is_none(),
        ((res0 / 8) % 8) + (res0 % 8) <= 7 ==> r == Some(
            CutResult {
                fault: res0 >= 0x80,
                open_sevenths: ((res0 / 8) % 8) as u8,
                short_sevenths: (res0 % 8) as u8,
                num_good: res1,
            },
        ),
{
    let fault = res0 & 0x80u8 != 0;
    let r_open = (res0 >> 3u8) & 0x7u8;
    let r_short = res0 & 0x7u8;
    assert(r_open == (res0 / 8) % 8 && r_short == res0 % 8 && ((res0 & 0x80u8 != 0) == (res0
        >= 0x80))) by (bit_vector)
        requires
            r_open == (res0 >> 3u8) & 0x7u8,
            r_short == res0 & 0x7u8,
    ;
    if r_open + r_short > 7 {
        return None;
    }
    Some(CutResult { fault, open_sevenths: r_open, short_sevenths: r_short, num_good: res1 })
}

/// Decode `RES0` read in probe mode: `(fault, detected)` from bits 7 and 0.
pub fn decode_res_probe(res0: u8) -> (r: (bool, bool))
    ensures
        r == (res0 >= 0x80, res0 % 2 == 1),
{
    let r = (res0 & 0x80u8 != 0, res0 & 1u8 != 0);
    assert(((res0 & 0x80u8 != 0) == (res0 >= 0x80)) && ((res0 & 1u8 != 0) == (res0 % 2 == 1)))
        by (bit_vector);
    r
}

/// Diagnostic counters and flags of the pulser.
#[derive(Clone, Copy, Debug, PartialEq, Eq, Structural)]
pub struct Stat {
    pub fault: bool,
    pub energized: bool,
    pub i2c_write: u32,
    pub i2c_write_fail: u32,
    pub i2c_read: u32,
    pub i2c_read_fail: u32,
}

/// Per-tick pulser feedback for motion: open and short rates and whether a
/// discharge (probe contact) was seen.
#[derive(Clone, Copy, Debug, Default, PartialEq, Eq, Structural)]
pub struct PulserFeedback {
    pub open_rate: u8,
    pub short_rate: u8,
    pub discharge: bool,
}

/// What the hardware should be doing while energized.
#[derive(Clone, Copy, Debug, PartialEq, Eq, Structural)]
pub enum Request {
    /// Iso-pulse cutting with the caller's pulse parameters.
    Cut,
    /// Minimum-energy pulses that halt on contact.
    Probe,
}

/// What one pulser tick does.
#[derive(Clone, Copy, Debug, PartialEq, Eq, Structural)]
pub enum PulserStep {
    /// Write the settings of the request, then `run`; see [`energize_writes`].
    Energize(Request),
    /// Write `run` = 0.
    Deenergize,
    /// Read the result registers of the running request.
    Poll(Request),
    /// Nothing to do.
    Idle,
}

/// The register writes that energize for `req`, in order: mode, then (for a
/// cut) current, duration and duty, then `run` last, since the device refuses
/// settings while running. `curr`, `dur` and `duty` are the caller's packed
/// register values.
pub open spec fn energize_writes_spec(req: Request, curr: u8, dur: u8, duty: u8) -> Seq<(u8, u8)> {
    match req {
        Request::Cut => seq![
            (REG_MODE, 1u8),
            (REG_CURR, curr),
            (REG_DUR, dur),
            (REG_DUTY, duty),
            (REG_CTRL, 1u8),
        ],
        Request::Probe => seq![(REG_MODE, 0u8), (REG_CTRL, 1u8)],
    }
}

pub fn energize_writes(req: Request, curr: u8, dur: u8, duty: u8) -> (r: Vec<(u8, u8)>)
    ensures
        r@ == energize_writes_spec(req, curr, dur, duty),
{
    let mut v: Vec<(u8, u8)> = Vec::new();
    match req {
        Request::Cut => {
            v.push((REG_MODE, 1u8));
            v.push((REG_CURR, curr));
            v.push((REG_DUR, dur));
            v.push((REG_DUTY, duty));
        },
        Request::Probe => {
            v.push((REG_MODE, 0u8));
        },
    }
    v.push((REG_CTRL, 1u8));
    assert(v@ =~= energize_writes_spec(req, curr, dur, duty));
    v
}

/// The pulser's state.
pub struct PulserState {
    fault: bool,
    /// `Some` requests energized, `None` de-energized.
    desired: Option<Request>,
    /// Whether the hardware is energized (last successful transition).
    energized: bool,
    /// Probe contact seen since energizing.
    probe_detected: bool,
    i2c_write: u32,
    i2c_write_fail: u32,
    i2c_read: u32,
    i2c_read_fail: u32,
}

pub struct PulserStateV {
    pub fault: bool,
    pub desired: Option<Request>,
    pub energized: bool,
    pub probe_detected: bool,
    pub i2c_write: u32,
    pub i2c_write_fail: u32,
    pub i2c_read: u32,
    pub i2c_read_fail: u32,
}

impl View for PulserState {
    type V = PulserStateV;

    closed spec fn view(&self) -> PulserStateV {
        PulserStateV {
            fault: self.fault,
            desired: self.desired,
            energized: self.energized,
            probe_detected: self.probe_detected,
            i2c_write: self.i2c_write,
            i2c_write_fail: self.i2c_write_fail,
            i2c_read: self.i2c_read,
            i2c_read_fail: self.i2c_read_fail,
        }
    }
}

/// A counter advanced by one, wrapping around.
pub open spec fn bump(n: u32) -> u32 {
    if n == u32::MAX {
        0
    } else {
        (n + 1) as u32
    }
}

/// The tick decision: bring the hardware to the request, else poll it.
pub open spec fn step_spec(s: PulserStateV) -> PulserStep {
    match s.desired {
        Some(req) => if !s.energized {
            PulserStep::Energize(req)
        } else {
            PulserStep::Poll(req)
        },
        None => if s.energized {
            PulserStep::Deenergize
        } else {
            PulserStep::Idle
        },
    }
}

impl PulserState {
    /// Not yet talked to: faulted until [`PulserState::init_done`] clears it.
    pub fn new() -> (r: Self)
        ensures
            r@ == (PulserStateV {
                fault: true,
                desired: None,
                energized: false,
                probe_detected: false,
                i2c_write: 0,
                i2c_write_fail: 0,
                i2c_read: 0,
                i2c_read_fail: 0,
            }),
    {
        PulserState {
            fault: true,
            desired: None,
            energized: false,
            probe_detected: false,
            i2c_write: 0,
            i2c_write_fail: 0,
            i2c_read: 0,
            i2c_read_fail: 0,
        }
    }

    /// After the start-up liveness check: the device's latched fault bit
    /// (bit 0 of `FAULT`) becomes the fault flag.
    pub fn init_done(&mut self, fault_reg: u8)
        ensures
            final(self)@ == (PulserStateV { fault: fault_reg % 2 == 1, ..old(self)@ }),
    {
        self.fault = fault_reg & 1u8 != 0;
        assert((fault_reg & 1u8 != 0) == (fault_reg % 2 == 1)) by (bit_vector);
    }

    pub fn fault(&self) -> (r: bool)
        ensures
            r == self@.fault,
    {
        self.fault
    }

    /// Request a cut run; the next tick energizes.
    pub fn request_cut(&mut self)
        ensures
            final(self)@ == (PulserStateV { desired: Some(Request::Cut), ..old(self)@ }),
    {
        self.desired = Some(Request::Cut);
    }

    /// Request a probe run; the next tick energizes.
    pub fn request_probe(&mut self)
        ensures
            final(self)@ == (PulserStateV { desired: Some(Request::Probe), ..old(self)@ }),
    {
        self.desired = Some(Request::Probe);
    }

    /// Request that the hardware be de-energized; the next tick writes it.
    pub fn request_deenergize(&mut self)
        ensures
            final(self)@ == (PulserStateV { desired: None, ..old(self)@ }),
    {
        self.desired = None;
    }

    /// What this tick does.
    pub fn next_step(&self) -> (r: PulserStep)
        ensures
            r == step_spec(self@),
    {
        match self.desired {
            Some(req) => if !self.energized {
                PulserStep::Energize(req)
            } else {
                PulserStep::Poll(req)
            },
            None => if self.energized {
                PulserStep::Deenergize
            } else {
                PulserStep::Idle
            },
        }
    }

    /// Count a register write; a failed write also raises the fault.
    pub fn record_write(&mut self, ok: bool)
        ensures
            final(self)@ == (PulserStateV {
                i2c_write: bump(old(self)@.i2c_write),
                i2c_write_fail: if ok {
                    old(self)@.i2c_write_fail
                } else {
                    bump(old(self)@.i2c_write_fail)
                },
                fault: old(self)@.fault || !ok,
                ..old(self)@
            }),
    {
        self.i2c_write = self.i2c_write.wrapping_add(1);
        if !ok {
            self.i2c_write_fail = self.i2c_write_fail.wrapping_add(1);
            self.fault = true;
        }
    }

    /// Count a register read.
    pub fn record_read(&mut self, ok: bool)
        ensures
            final(self)@ == (PulserStateV {
                i2c_read: bump(old(self)@.i2c_read),
                i2c_read_fail: if ok {
                    old(self)@.i2c_read_fail
                } else {
                    bump(old(self)@.i2c_read_fail)
                },
                ..old(self)@
            }),
    {
        self.i2c_read = self.i2c_read.wrapping_add(1);
        if !ok {
            self.i2c_read_fail = self.i2c_read_fail.wrapping_add(1);
        }
    }

    /// Every energizing write succeeded: the hardware runs, with no contact yet.
    pub fn energize_done(&mut self)
        ensures
            final(self)@ == (PulserStateV { energized: true, probe_detected: false, ..old(self)@ }),
    {
        self.energized = true;
        self.probe_detected = false;
    }

    /// The halt write succeeded: the hardware is stopped.
    pub fn deenergize_done(&mut self)
        ensures
            final(self)@ == (PulserStateV { energized: false, probe_detected: false, ..old(self)@ }),
    {
        self.energized = false;
        self.probe_detected = false;
    }

    /// Outcome of a cut-mode result read (`None` when the read failed or the
    /// result was malformed): counted, and a reported fault is latched.
    pub fn cut_polled(&mut self, res: Option<CutResult>)
        ensures
            ({
                let o = old(self)@;
                final(self)@ == (PulserStateV {
                    i2c_read: bump(o.i2c_read),
                    i2c_read_fail: if res is Some {
                        o.i2c_read_fail
                    } else {
                        bump(o.i2c_read_fail)
                    },
                    fault: o.fault || (res matches Some(c) && c.fault),
                    ..o
                })
            }),
    {
        self.i2c_read = self.i2c_read.wrapping_add(1);
        match res {
            Some(c) => {
                if c.fault {
                    self.fault = true;
                }
            },
            None => {
                self.i2c_read_fail = self.i2c_read_fail.wrapping_add(1);
            },
        }
    }

    /// Outcome of a probe-mode result read, `(fault, detected)`, or `None`
    /// when the read failed: counted, a fault is latched, contact is latched.
    pub fn probe_polled(&mut self, res: Option<(bool, bool)>)
        ensures
            ({
                let o = old(self)@;
                final(self)@ == (PulserStateV {
                    i2c_read: bump(o.i2c_read),
                    i2c_read_fail: if res is Some {
                        o.i2c_read_fail
                    } else {
                        bump(o.i2c_read_fail)
                    },
                    fault: o.fault || (res matches Some(r) && r.0),
                    probe_detected: o.probe_detected || (res matches Some(r) && r.1),
                    ..o
                })
            }),
    {
        self.i2c_read = self.i2c_read.wrapping_add(1);
        match res {
            Some((fault, detected)) => {
                if fault {
                    self.fault = true;
                }
                if detected {
                    self.probe_detected = true;
                }
            },
            None => {
                self.i2c_read_fail = self.i2c_read_fail.wrapping_add(1);
            },
        }
    }

    /// Probe contact: only meaningful while a probe is requested.
    pub fn probe_contact(&self) -> (r: bool)
        ensures
            r == (self@.desired == Some(Request::Probe) && self@.probe_detected),
    {
        match self.desired {
            Some(Request::Probe) => self.probe_detected,
            _ => false,
        }
    }

    /// Whether a probe run is requested.
    pub fn requesting_probe(&self) -> (r: bool)
        ensures
            r == (self@.desired == Some(Request::Probe)),
    {
        match self.desired {
            Some(Request::Probe) => true,
            _ => false,
        }
    }

    pub fn energized(&self) -> (r: bool)
        ensures
            r == self@.energized,
    {
        self.energized
    }

    /// True when the hardware state matches the most recent request.
    pub fn settled(&self) -> (r: bool)
        ensures
            r == (self@.desired.is_some() == self@.energized),
    {
        self.desired.is_some() == self.energized
    }

    /// Snapshot for the `stat` command.
    pub fn read_stat(&self) -> (r: Stat)
        ensures
            r == (Stat {
                fault: self@.fault,
                energized: self@.energized,
                i2c_write: self@.i2c_write,
                i2c_write_fail: self@.i2c_write_fail,
                i2c_read: self@.i2c_read,
                i2c_read_fail: self@.i2c_read_fail,
            }),
    {
        Stat {
            fault: self.fault,
            energized: self.energized,
            i2c_write: self.i2c_write,
            i2c_write_fail: self.i2c_write_fail,
            i2c_read: self.i2c_read,
            i2c_read_fail: self.i2c_read_fail,
        }
    }
}

/// The tick serves the request: it energizes for exactly the requested run
/// while the hardware is off, polls that same run once it is on, and
/// de-energizes or idles only when nothing is requested.
pub proof fn law_step_serves_request(s: PulserStateV)
    ensures
        step_spec(s) matches PulserStep::Energize(r) ==> s.desired == Some(r) && !s.energized,
        step_spec(s) matches PulserStep::Poll(r) ==> s.desired == Some(r) && s.energized,
        step_spec(s) is Deenergize <==> (s.desired is None && s.energized),
        step_spec(s) is Idle <==> (s.desired is None && !s.energized),
        s.desired is Some ==> (step_spec(s) is Energize || step_spec(s) is Poll),
{
}

/// A settled pulser has nothing to transition: its tick only polls or idles.
/// And a tick that transitions is one whose pulser was not settled.
pub proof fn law_settled_no_transition(s: PulserStateV)
    ensures
        (s.desired.is_some() == s.energized) <==> !(step_spec(s) is Energize || step_spec(
            s,
        ) is Deenergize),
{
}

/// Energizing writes the mode first (1 for a cut, 0 for a probe) and `run`
/// last, and nothing else writes `run`; a cut writes the caller's current,
/// duration and duty in between, a probe writes nothing else.
pub proof fn law_energize_order(req: Request, curr: u8, dur: u8, duty: u8)
    ensures
        ({
            let w = energize_writes_spec(req, curr, dur, duty);
            &&& w.len() >= 2
            &&& w[0] == (REG_MODE, if req == Request::Cut { 1u8 } else { 0u8 })
            &&& w.last() == (REG_CTRL, 1u8)
            &&& forall|i: int| 0 <= i < w.len() - 1 ==> (#[trigger] w[i]).0 != REG_CTRL
            &&& req == Request::Cut ==> w.len() == 5 && w.contains((REG_CURR, curr)) && w.contains(
                (REG_DUR, dur),
            ) && w.contains((REG_DUTY, duty))
            &&& req == Request::Probe ==> w.len() == 2
        }),
{
    let w = energize_writes_spec(req, curr, dur, duty);
    if req == Request::Cut {
        assert(w[1] == (REG_CURR, curr));
        assert(w[2] == (REG_DUR, dur));
        assert(w[3] == (REG_DUTY, duty));
    }
}

} // verus!
