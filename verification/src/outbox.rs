//! Output staging: whole p-state lines are collected into a byte buffer with
//! a fixed capacity, then flushed to the wire ring; a drain cursor ships the
//! ring's bytes to the serial port as room allows.

use vstd::prelude::*;

use crate::pstate::{error_line, error_msg, Line};
use vstd::string::StringSliceAdditionalSpecFns;

verus! {

/// Capacity of the drain scratch buffer.
pub const DRAIN_SCRATCH: usize = 64;

/// Buffer holding one logical batch of output lines, each followed by LF,
/// in at most `N` bytes.
pub struct OutputBuf<const N: usize> {
    bytes: Vec<u8>,
    overflowed: bool,
}

pub struct OutputBufV {
    pub bytes: Seq<u8>,
    pub overflowed: bool,
}

impl<const N: usize> View for OutputBuf<N> {
    type V = OutputBufV;

    closed spec fn view(&self) -> OutputBufV {
        OutputBufV { bytes: self.bytes@, overflowed: self.overflowed }
    }
}

/// Staging a line: its payload and LF are added whole when they fit in `cap`
/// bytes, else dropped; an overflowed line or a dropped one sets the flag.
pub open spec fn push_spec(b: OutputBufV, payload: Seq<u8>, line_overflowed: bool, cap: nat) -> OutputBufV {
    if b.bytes.len() + payload.len() + 1 > cap {
        OutputBufV { bytes: b.bytes, overflowed: true }
    } else {
        OutputBufV {
            bytes: b.bytes + payload.push(0x0au8),
            overflowed: b.overflowed || line_overflowed,
        }
    }
}

/// Lines staged one after another; each line is its payload and whether it
/// overflowed when built.
pub open spec fn push_all(b: OutputBufV, lines: Seq<(Seq<u8>, bool)>, cap: nat) -> OutputBufV
    decreases lines.len(),
{
    if lines.len() == 0 {
        b
    } else {
        let prev = push_all(b, lines.drop_last(), cap);
        push_spec(prev, lines.last().0, lines.last().1, cap)
    }
}

/// The payloads of the lines, each followed by LF.
pub open spec fn framed(lines: Seq<(Seq<u8>, bool)>) -> Seq<u8>
    decreases lines.len(),
{
    if lines.len() == 0 {
        Seq::empty()
    } else {
        framed(lines.drop_last()) + lines.last().0.push(0x0au8)
    }
}

/// Nothing is lost silently: a buffer that reports no overflow holds every
/// staged line whole, in order, each followed by LF; lines are only ever
/// added whole, and the buffer never holds more than its capacity.
pub proof fn law_staging_no_silent_loss(b: OutputBufV, lines: Seq<(Seq<u8>, bool)>, cap: nat)
    ensures
        !push_all(b, lines, cap).overflowed ==> !b.overflowed && push_all(b, lines, cap).bytes
            == b.bytes + framed(lines),
        b.bytes.len() <= cap ==> push_all(b, lines, cap).bytes.len() <= cap,
        b.bytes.is_prefix_of(push_all(b, lines, cap).bytes),
    decreases lines.len(),
{
    if lines.len() > 0 {
        law_staging_no_silent_loss(b, lines.drop_last(), cap);
        let prev = push_all(b, lines.drop_last(), cap);
        let next = push_all(b, lines, cap);
        if !next.overflowed {
            assert(prev.bytes + lines.last().0.push(0x0au8) =~= b.bytes + framed(lines));
        }
        assert(b.bytes.is_prefix_of(next.bytes)) by {
            assert forall|i: int| 0 <= i < b.bytes.len() implies next.bytes[i] == b.bytes[i] by {
                assert(prev.bytes[i] == b.bytes[i]);
            }
        }
    }
}

impl<const N: usize> OutputBuf<N> {
    /// At most `N` bytes are held.
    pub closed spec fn wf(&self) -> bool {
        self.bytes@.len() <= N
    }

    pub fn new() -> (r: Self)
        ensures
            r.wf(),
            r@ == (OutputBufV { bytes: Seq::empty(), overflowed: false }),
    {
        OutputBuf { bytes: Vec::new(), overflowed: false }
    }

    /// Stage one line (payload then LF), or drop it whole if it does not fit.
    pub fn push(&mut self, line: Line)
        requires
            old(self).wf(),
        ensures
            final(self).wf(),
            final(self)@ == push_spec(old(self)@, line@.bytes, line@.overflowed, N as nat),
    {
        if line.overflowed() {
            self.overflowed = true;
        }
        let payload = line.as_bytes();
        if payload.len() >= N || self.bytes.len() > N - payload.len() - 1 {
            self.overflowed = true;
            return;
        }
        let mut i: usize = 0;
        let ghost start = self.bytes@;
        while i < payload.len()
            invariant
                i <= payload@.len(),
                start.len() + payload@.len() + 1 <= N,
                self.bytes@ == start + payload@.take(i as int),
                self.overflowed == (old(self)@.overflowed || line@.overflowed),
            decreases payload@.len() - i,
        {
            self.bytes.push(payload[i]);
            proof {
                assert(payload@.take(i + 1) =~= payload@.take(i as int).push(payload@[i as int]));
            }
            i = i + 1;
        }
        assert(payload@.take(payload@.len() as int) =~= payload@);
        self.bytes.push(0x0au8);
        assert(self.bytes@ =~= start + payload@.push(0x0au8));
    }

    /// Stage the `error` line for `msg`.
    pub fn push_error(&mut self, msg: &str)
        requires
            old(self).wf(),
        ensures
            final(self).wf(),
            final(self)@ == push_spec(
                old(self)@,
                error_line(msg.spec_bytes()).bytes,
                error_line(msg.spec_bytes()).overflowed,
                N as nat,
            ),
    {
        self.push(error_msg(msg));
    }

    /// Whether a line was dropped, or staged truncated, since the last take.
    pub fn overflowed(&self) -> (r: bool)
        ensures
            r == self@.overflowed,
    {
        self.overflowed
    }

    /// Move the staged bytes out for flushing, clearing the flag.
    pub fn take(&mut self) -> (r: Vec<u8>)
        requires
            old(self).wf(),
        ensures
            r@ == old(self)@.bytes,
            final(self).wf(),
            final(self)@ == (OutputBufV { bytes: Seq::empty(), overflowed: false }),
    {
        self.overflowed = false;
        let mut out: Vec<u8> = Vec::new();
        core::mem::swap(&mut out, &mut self.bytes);
        out
    }
}

/// Drain cursor: bytes pulled from the wire ring that the serial TX ring has
/// not yet accepted.
pub struct DrainState {
    scratch: [u8; 64],
    len: usize,
    offset: usize,
}

impl DrainState {
    /// `offset <= len <= DRAIN_SCRATCH`.
    pub closed spec fn wf(&self) -> bool {
        self.offset <= self.len <= DRAIN_SCRATCH
    }

    /// The bytes still to ship.
    pub closed spec fn pending_bytes(&self) -> Seq<u8> {
        self.scratch@.subrange(self.offset as int, self.len as int)
    }

    pub fn new() -> (r: Self)
        ensures
            r.wf(),
            r.pending_bytes() == Seq::<u8>::empty(),
    {
        DrainState { scratch: [0u8; 64], len: 0, offset: 0 }
    }

    /// Whether every pulled byte has been shipped.
    pub fn is_drained(&self) -> (r: bool)
        requires
            self.wf(),
        ensures
            r == (self.pending_bytes().len() == 0),
    {
        self.offset >= self.len
    }

    /// The bytes still to ship.
    pub fn pending(&self) -> (r: &[u8])
        requires
            self.wf(),
        ensures
            r@ == self.pending_bytes(),
    {
        vstd::slice::slice_subrange(self.scratch.as_slice(), self.offset, self.len)
    }

    /// Record that the first `n` pending bytes were shipped.
    pub fn consume(&mut self, n: usize)
        requires
            old(self).wf(),
            n <= old(self).pending_bytes().len(),
        ensures
            final(self).wf(),
            final(self).pending_bytes() == old(self).pending_bytes().skip(n as int),
    {
        self.offset = self.offset + n;
        assert(self.pending_bytes() =~= old(self).pending_bytes().skip(n as int));
    }

    /// Replace the (drained) scratch with `data` pulled from the wire ring.
    pub fn refill(&mut self, data: &[u8])
        requires
            data@.len() <= DRAIN_SCRATCH,
        ensures
            final(self).wf(),
            final(self).pending_bytes() == data@,
    {
        let mut i: usize = 0;
        while i < data.len()
            invariant
                i <= data@.len() <= DRAIN_SCRATCH,
                self.scratch@.len() == DRAIN_SCRATCH,
                forall|j: int| 0 <= j < i ==> self.scratch@[j] == data@[j],
            decreases data@.len() - i,
        {
            self.scratch[i] = data[i];
            i = i + 1;
        }
        self.len = data.len();
        self.offset = 0;
        assert(self.pending_bytes() =~= data@);
    }
}

} // verus!
