//! What the receive path does with each parsed line.
//!
//! Signals are always answered; a cancel is refused once faulted. While the
//! canceler is active (a cancel window is open, or the machine is faulted),
//! commands, fast settings and syntax errors are ignored, so nothing in
//! transit reaches the machine.
//!
//! A tick's chunk of received bytes may hold several lines. Its fast settings
//! are collected in a batch (at most [`TICK_FS_CAP`]; later ones are dropped)
//! and applied after the chunk, unless a cancel was taken in the same chunk:
//! then the batch is discarded, settings taken before the cancel included.

use vstd::prelude::*;

use crate::canceler::CancelerV;
use crate::command::{Command, FastKey, FastKeyV, Parsed, QuerySignal};
use crate::hvec::{fastset_keys, fastsets_clear, fastsets_new, fastsets_push};

verus! {

pub enum RxAction {
    /// Open a cancel window.
    Cancel,
    /// Answer a query signal.
    Query(QuerySignal),
    /// Apply a fast setting this tick.
    FastSet(FastKey),
    /// Queue a command for the executor.
    Enqueue(Command),
    /// Report a syntax error.
    SyntaxError,
    /// Drop the line.
    Ignore,
}

/// The action for one parsed line, given the fault latch and whether the
/// canceler is active.
pub open spec fn rx_spec(p: Parsed, faulted: bool, active: bool) -> RxAction {
    match p {
        Parsed::Cancel => if faulted {
            RxAction::Ignore
        } else {
            RxAction::Cancel
        },
        Parsed::Query(q) => RxAction::Query(q),
        Parsed::FastSet(f) => if active {
            RxAction::Ignore
        } else {
            RxAction::FastSet(f)
        },
        Parsed::Command(c) => if active {
            RxAction::Ignore
        } else {
            RxAction::Enqueue(c)
        },
        Parsed::Error => if active {
            RxAction::Ignore
        } else {
            RxAction::SyntaxError
        },
    }
}

pub fn rx_action(p: Parsed, faulted: bool, active: bool) -> (r: RxAction)
    ensures
        r == rx_spec(p, faulted, active),
{
    match p {
        Parsed::Cancel => if faulted {
            RxAction::Ignore
        } else {
            RxAction::Cancel
        },
        Parsed::Query(q) => RxAction::Query(q),
        Parsed::FastSet(f) => if active {
            RxAction::Ignore
        } else {
            RxAction::FastSet(f)
        },
        Parsed::Command(c) => if active {
            RxAction::Ignore
        } else {
            RxAction::Enqueue(c)
        },
        Parsed::Error => if active {
            RxAction::Ignore
        } else {
            RxAction::SyntaxError
        },
    }
}

/// Fast settings a tick's batch holds at most.
pub const TICK_FS_CAP: usize = 8;

/// What one tick's chunk of lines leaves for the tick.
pub struct RxBatch {
    /// A cancel was taken in the chunk.
    pub cancel_seen: bool,
    /// The fast settings to apply, in arrival order.
    pub fastsets: heapless::Vec<FastKey, 8>,
}

pub struct RxBatchV {
    pub cancel_seen: bool,
    pub fastsets: Seq<FastKeyV>,
}

impl View for RxBatch {
    type V = RxBatchV;

    open spec fn view(&self) -> RxBatchV {
        RxBatchV { cancel_seen: self.cancel_seen, fastsets: fastset_keys(self.fastsets) }
    }
}

pub open spec fn empty_batch() -> RxBatchV {
    RxBatchV { cancel_seen: false, fastsets: Seq::empty() }
}

/// What one line's action does to the batch: a cancel is noted, a fast
/// setting is kept while fewer than `TICK_FS_CAP` are held; other actions
/// leave it alone.
pub open spec fn batch_step(b: RxBatchV, act: RxAction) -> RxBatchV {
    match act {
        RxAction::Cancel => RxBatchV { cancel_seen: true, fastsets: b.fastsets },
        RxAction::FastSet(f) => if b.fastsets.len() < TICK_FS_CAP {
            RxBatchV { cancel_seen: b.cancel_seen, fastsets: b.fastsets.push(f@) }
        } else {
            b
        },
        _ => b,
    }
}

/// The batch after a chunk's actions, in order.
pub open spec fn batch_run(b: RxBatchV, acts: Seq<RxAction>) -> RxBatchV
    decreases acts.len(),
{
    if acts.len() == 0 {
        b
    } else {
        batch_step(batch_run(b, acts.drop_last()), acts.last())
    }
}

/// The end of the chunk: a cancel taken in it discards the fast settings.
pub open spec fn batch_finish(b: RxBatchV) -> RxBatchV {
    if b.cancel_seen {
        RxBatchV { cancel_seen: true, fastsets: Seq::empty() }
    } else {
        b
    }
}

/// The fast settings among the actions, in order.
pub open spec fn fastsets_of(acts: Seq<RxAction>) -> Seq<FastKeyV>
    decreases acts.len(),
{
    if acts.len() == 0 {
        Seq::empty()
    } else {
        let rest = fastsets_of(acts.drop_last());
        match acts.last() {
            RxAction::FastSet(f) => rest.push(f@),
            _ => rest,
        }
    }
}

/// `s`, cut to its first `n` items.
pub open spec fn at_most(s: Seq<FastKeyV>, n: nat) -> Seq<FastKeyV> {
    if s.len() <= n {
        s
    } else {
        s.take(n as int)
    }
}

impl RxBatch {
    pub fn new() -> (b: Self)
        ensures
            b@ == empty_batch(),
    {
        RxBatch { cancel_seen: false, fastsets: fastsets_new() }
    }

    /// Note a cancel taken in the chunk.
    pub fn take_cancel(&mut self)
        ensures
            final(self)@ == batch_step(old(self)@, RxAction::Cancel),
    {
        self.cancel_seen = true;
    }

    /// Keep a fast setting taken in the chunk, while there is room.
    pub fn take_fastset(&mut self, f: FastKey)
        ensures
            final(self)@ == batch_step(old(self)@, RxAction::FastSet(f)),
    {
        let _ = fastsets_push(&mut self.fastsets, f);
    }

    /// Close the chunk: a cancel taken in it discards the fast settings.
    pub fn finish(&mut self)
        ensures
            final(self)@ == batch_finish(old(self)@),
    {
        if self.cancel_seen {
            fastsets_clear(&mut self.fastsets);
        }
    }
}

/// A cancel anywhere in a chunk leaves no fast setting of that chunk to
/// apply, whether it came before or after the cancel. Without one, the
/// chunk's fast settings are applied in arrival order, the first
/// `TICK_FS_CAP` of them.
pub proof fn law_cancel_discards_chunk(acts: Seq<RxAction>)
    ensures
        (exists|i: int| 0 <= i < acts.len() && acts[i] is Cancel) ==> batch_finish(
            batch_run(empty_batch(), acts),
        ).fastsets == Seq::<FastKeyV>::empty(),
        !(exists|i: int| 0 <= i < acts.len() && acts[i] is Cancel) ==> batch_finish(
            batch_run(empty_batch(), acts),
        ).fastsets == at_most(fastsets_of(acts), TICK_FS_CAP as nat),
{
    lemma_batch_run(acts);
}

proof fn lemma_batch_run(acts: Seq<RxAction>)
    ensures
        batch_run(empty_batch(), acts).cancel_seen == (exists|i: int|
            0 <= i < acts.len() && acts[i] is Cancel),
        batch_run(empty_batch(), acts).fastsets == at_most(fastsets_of(acts), TICK_FS_CAP as nat),
    decreases acts.len(),
{
    if acts.len() > 0 {
        let rest = acts.drop_last();
        lemma_batch_run(rest);
        if exists|i: int| 0 <= i < rest.len() && rest[i] is Cancel {
            let i = choose|i: int| 0 <= i < rest.len() && rest[i] is Cancel;
            assert(acts[i] is Cancel);
        }
        if exists|i: int| 0 <= i < acts.len() && acts[i] is Cancel {
            let i = choose|i: int| 0 <= i < acts.len() && acts[i] is Cancel;
            if i < rest.len() {
                assert(rest[i] is Cancel);
            }
        }
        let fs = fastsets_of(rest);
        match acts.last() {
            RxAction::FastSet(f) => {
                if fs.len() >= TICK_FS_CAP {
                    assert(fs.push(f@).take(TICK_FS_CAP as int) =~= at_most(fs, TICK_FS_CAP as nat));
                }
            },
            _ => {},
        }
    }
}

/// While the canceler is active (which a set fault latch keeps it), nothing
/// received reaches the machine: only query signals are answered, and a
/// faulted machine refuses cancels too.
pub proof fn law_held_off_while_active(p: Parsed, c: CancelerV)
    requires
        c.ticks_left > 0 || c.fault,
    ensures
        rx_spec(p, c.fault, c.ticks_left > 0 || c.fault) is Ignore || rx_spec(
            p,
            c.fault,
            c.ticks_left > 0 || c.fault,
        ) is Query || (!c.fault && rx_spec(p, c.fault, true) is Cancel),
        c.fault ==> !(rx_spec(p, c.fault, true) is Cancel),
{
}

/// While the canceler is not active, every line does what it says: a cancel
/// cancels (unless faulted), a query is answered, a fast setting is applied,
/// a command is queued and a malformed line is reported.
pub proof fn law_passes_while_idle(p: Parsed, faulted: bool)
    ensures
        p matches Parsed::Cancel ==> rx_spec(p, faulted, false) == (if faulted {
            RxAction::Ignore
        } else {
            RxAction::Cancel
        }),
        p matches Parsed::Query(q) ==> rx_spec(p, faulted, false) == RxAction::Query(q)
            && rx_spec(p, faulted, true) == RxAction::Query(q),
        p matches Parsed::FastSet(f) ==> rx_spec(p, faulted, false) == RxAction::FastSet(f),
        p matches Parsed::Command(c) ==> rx_spec(p, faulted, false) == RxAction::Enqueue(c),
        p matches Parsed::Error ==> rx_spec(p, faulted, false) == RxAction::SyntaxError,
        !faulted && p is Cancel ==> rx_spec(p, faulted, true) == RxAction::Cancel,
{
}

} // verus!
