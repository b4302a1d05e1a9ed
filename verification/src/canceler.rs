//! Machine-wide safety status.
//! * cancel: a window of ticks in which all commands are ignored and the
//!   hardware is held in a safe state;
//! * fault: a latching flag that forbids write commands until power cycle.
//!
//! Fault is weaker than cancel, to allow read commands for debugging.
//! Entering fault also opens one cancel window.

use vstd::prelude::*;

verus! {

/// Drain window length, long enough to discard all in-transit commands and
/// device transients.
pub const CANCEL_TICKS: u16 = 500;

pub struct Canceler {
    gen: u32,
    ticks_left: u16,
    fault: bool,
}

/// Abstract status: cancel generation, ticks left in the window, fault latch.
pub struct CancelerV {
    pub gen: u32,
    pub ticks_left: u16,
    pub fault: bool,
}

impl View for Canceler {
    type V = CancelerV;

    closed spec fn view(&self) -> CancelerV {
        CancelerV { gen: self.gen, ticks_left: self.ticks_left, fault: self.fault }
    }
}

/// The next generation (counting wraps around).
pub open spec fn next_gen(g: u32) -> u32 {
    if g == u32::MAX {
        0
    } else {
        (g + 1) as u32
    }
}

/// The status after one tick.
pub open spec fn tick_spec(c: CancelerV) -> CancelerV {
    CancelerV {
        ticks_left: if c.ticks_left > 0 {
            (c.ticks_left - 1) as u16
        } else {
            0
        },
        ..c
    }
}

/// The status after a cancel: a new generation and a fresh window.
pub open spec fn cancel_spec(c: CancelerV) -> CancelerV {
    CancelerV { gen: next_gen(c.gen), ticks_left: CANCEL_TICKS, fault: c.fault }
}

/// The status after a fault is raised: on first entry the latch is set and a
/// cancel happens; later entries change nothing.
pub open spec fn fault_spec(c: CancelerV) -> CancelerV {
    if c.fault {
        c
    } else {
        CancelerV { gen: next_gen(c.gen), ticks_left: CANCEL_TICKS, fault: true }
    }
}

/// What can happen to the status.
pub enum Event {
    Cancel,
    Fault,
    Tick,
}

pub open spec fn event_spec(c: CancelerV, e: Event) -> CancelerV {
    match e {
        Event::Cancel => cancel_spec(c),
        Event::Fault => fault_spec(c),
        Event::Tick => tick_spec(c),
    }
}

/// The status after the events, in order.
pub open spec fn run(c: CancelerV, es: Seq<Event>) -> CancelerV
    decreases es.len(),
{
    if es.len() == 0 {
        c
    } else {
        event_spec(run(c, es.drop_last()), es.last())
    }
}

/// The status after `n` ticks.
pub open spec fn ticks(c: CancelerV, n: nat) -> CancelerV
    decreases n,
{
    if n == 0 {
        c
    } else {
        tick_spec(ticks(c, (n - 1) as nat))
    }
}

impl Canceler {
    pub fn new() -> (r: Self)
        ensures
            r@ == (CancelerV { gen: 0, ticks_left: 0, fault: false }),
    {
        Canceler { gen: 0, ticks_left: 0, fault: false }
    }

    /// Bump the generation and (re)arm the drain window.
    pub fn cancel(&mut self)
        ensures
            final(self)@ == cancel_spec(old(self)@),
    {
        self.gen = self.gen.wrapping_add(1);
        self.ticks_left = CANCEL_TICKS;
    }

    /// Set the latching fault flag. Returns `true` on entering, `false` if
    /// already faulted. Entering also opens a cancel window.
    pub fn enter_fault(&mut self) -> (r: bool)
        ensures
            r == !old(self)@.fault,
            final(self)@ == fault_spec(old(self)@),
    {
        if self.fault {
            return false;
        }
        self.fault = true;
        self.gen = self.gen.wrapping_add(1);
        self.ticks_left = CANCEL_TICKS;
        true
    }

    /// True once the fault latch is set; stays true until power-cycle.
    pub fn faulted(&self) -> (r: bool)
        ensures
            r == self@.fault,
    {
        self.fault
    }

    /// True while in the cancel window.
    pub fn canceled(&self) -> (r: bool)
        ensures
            r == (self@.ticks_left > 0),
    {
        self.ticks_left > 0
    }

    /// True while commands must be held off: in the cancel window, or faulted
    /// (the latch keeps this true for good).
    pub fn active(&self) -> (r: bool)
        ensures
            r == (self@.ticks_left > 0 || self@.fault),
    {
        self.ticks_left > 0 || self.fault
    }

    /// Age the drain window by one tick.
    pub fn tick(&mut self)
        ensures
            final(self)@ == tick_spec(old(self)@),
    {
        if self.ticks_left > 0 {
            self.ticks_left = self.ticks_left - 1;
        }
    }

    /// Snapshot the cancel generation, to detect later whether a cancel landed.
    pub fn watch(&self) -> (w: Watcher)
        ensures
            w@ == self@.gen,
    {
        Watcher { gen: self.gen }
    }
}

/// Cancel detector taken at [`Canceler::watch`].
#[derive(Clone, Copy)]
pub struct Watcher {
    gen: u32,
}

impl View for Watcher {
    type V = u32;

    closed spec fn view(&self) -> u32 {
        self.gen
    }
}

impl Watcher {
    /// True if a cancel (or fault entry) has happened on `canceler` since
    /// this watch was taken.
    pub fn cancelled(&self, canceler: &Canceler) -> (r: bool)
        ensures
            r == (canceler@.gen != self@),
    {
        canceler.gen != self.gen
    }
}

/// The fault latch never clears: once set, it stays set whatever happens.
/// And only a raised fault sets it.
pub proof fn law_fault_latches(c: CancelerV, es: Seq<Event>)
    ensures
        c.fault ==> run(c, es).fault,
        run(c, es).fault ==> c.fault || es.contains(Event::Fault),
    decreases es.len(),
{
    if es.len() > 0 {
        law_fault_latches(c, es.drop_last());
        if run(c, es.drop_last()).fault && !c.fault {
            let k = choose|k: int| 0 <= k < es.drop_last().len() && es.drop_last()[k] == Event::Fault;
            assert(es[k] == Event::Fault);
        }
        if run(c, es).fault && !c.fault && !run(c, es.drop_last()).fault {
            assert(es[es.len() - 1] == Event::Fault);
        }
    }
}

/// Whether `e` bumps the generation of status `c`: a cancel always does, a
/// fault only on entry.
pub open spec fn bumps_gen(c: CancelerV, e: Event) -> bool {
    match e {
        Event::Cancel => true,
        Event::Fault => !c.fault,
        Event::Tick => false,
    }
}

/// How many of the events, run in order from `c`, bump the generation.
pub open spec fn bumps(c: CancelerV, es: Seq<Event>) -> nat
    decreases es.len(),
{
    if es.len() == 0 {
        0
    } else {
        bumps(c, es.drop_last()) + if bumps_gen(run(c, es.drop_last()), es.last()) {
            1nat
        } else {
            0nat
        }
    }
}

proof fn lemma_gen_counts_bumps(c: CancelerV, es: Seq<Event>)
    ensures
        run(c, es).gen == (c.gen + bumps(c, es)) % 0x1_0000_0000,
    decreases es.len(),
{
    if es.len() > 0 {
        lemma_gen_counts_bumps(c, es.drop_last());
    }
}

/// A watch taken at status `c` sees a cancel after the events (its
/// generation differs) exactly when one of them was a cancel or a fault
/// entry: ticks, repeated fault entries and the read-only queries (`watch`,
/// `canceled`, `faulted`, `active`) never make it fire. This holds while
/// fewer than 2^32 bumps happen, after which the generation has wrapped.
pub proof fn law_watch_sees_bumps(c: CancelerV, es: Seq<Event>)
    requires
        bumps(c, es) < 0x1_0000_0000,
    ensures
        (run(c, es).gen != c.gen) <==> bumps(c, es) > 0,
{
    lemma_gen_counts_bumps(c, es);
}

/// A cancel is seen by every watcher taken before it.
pub proof fn law_cancel_seen(c: CancelerV, w: u32)
    requires
        w == c.gen,
    ensures
        next_gen(c.gen) != w,
{
}

/// The cancel window lasts exactly `CANCEL_TICKS` ticks.
pub proof fn law_cancel_window(c: CancelerV, n: nat)
    requires
        c.ticks_left == CANCEL_TICKS,
    ensures
        n < CANCEL_TICKS ==> ticks(c, n).ticks_left > 0,
        n >= CANCEL_TICKS ==> ticks(c, n).ticks_left == 0,
        ticks(c, n).fault == c.fault,
        ticks(c, n).gen == c.gen,
    decreases n,
{
    if n > 0 {
        law_cancel_window(c, (n - 1) as nat);
        lemma_ticks_left(c, n);
    }
}

proof fn lemma_ticks_left(c: CancelerV, n: nat)
    ensures
        ticks(c, n).ticks_left == (if n >= c.ticks_left {
            0
        } else {
            c.ticks_left - n
        }),
    decreases n,
{
    if n > 0 {
        lemma_ticks_left(c, (n - 1) as nat);
    }
}

} // verus!
