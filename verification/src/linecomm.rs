//! Byte stream to line splitter.
//!
//! Bytes from the host are assembled into lines ended by LF. CR is dropped;
//! backspace and DEL erase the last byte of the line being assembled. A line
//! longer than [`LINE_CAP`] is dropped whole, up to and including its LF.
//! Empty lines are never reported.

use vstd::prelude::*;

use crate::hvec::{
    frame_as_slice, frame_bytes, frame_clear, frame_len, frame_new, frame_pop, frame_push,
};

verus! {

pub const LINE_CAP: usize = 128;

pub const LF: u8 = 0x0au8;

pub const CR: u8 = 0x0du8;

pub const BS: u8 = 0x08u8;

pub const DEL: u8 = 0x7fu8;

#[derive(Clone, Copy, PartialEq, Eq, Structural)]
pub enum FrameState {
    Building,
    /// The line exceeded `LINE_CAP`; bytes are dropped until the terminating LF.
    Poisoned,
    /// The last `feed` returned the assembled line; it is cleared on the next call.
    Holding,
}

pub struct Framer {
    buf: heapless::Vec<u8, 128>,
    state: FrameState,
}

/// Abstract framer: its state and the bytes of the line being assembled.
pub struct FramerV {
    pub state: FrameState,
    pub line: Seq<u8>,
}

impl View for Framer {
    type V = FramerV;

    closed spec fn view(&self) -> FramerV {
        FramerV { state: self.state, line: frame_bytes(self.buf) }
    }
}

/// A byte that can be part of a line: not LF, CR, backspace or DEL.
pub open spec fn is_content(b: u8) -> bool {
    b != LF && b != CR && b != BS && b != DEL
}

/// A line as the framer can hold it: at most `LINE_CAP` content bytes.
pub open spec fn line_ok(s: Seq<u8>) -> bool {
    s.len() <= LINE_CAP && forall|i: int| 0 <= i < s.len() ==> is_content(#[trigger] s[i])
}

pub open spec fn fresh() -> FramerV {
    FramerV { state: FrameState::Building, line: Seq::empty() }
}

/// One step of the framer: the next state and the completed line, if any.
pub open spec fn step(f: FramerV, b: u8) -> (FramerV, Option<Seq<u8>>) {
    let f0 = if f.state == FrameState::Holding {
        fresh()
    } else {
        f
    };
    if b == CR {
        (f0, None)
    } else if b == BS || b == DEL {
        if f0.state == FrameState::Building && f0.line.len() > 0 {
            (FramerV { state: f0.state, line: f0.line.drop_last() }, None)
        } else {
            (f0, None)
        }
    } else if b == LF {
        if f0.state == FrameState::Poisoned {
            (fresh(), None)
        } else if f0.line.len() == 0 {
            (f0, None)
        } else {
            (FramerV { state: FrameState::Holding, line: f0.line }, Some(f0.line))
        }
    } else if f0.state == FrameState::Building {
        if f0.line.len() < LINE_CAP {
            (FramerV { state: f0.state, line: f0.line.push(b) }, None)
        } else {
            (FramerV { state: FrameState::Poisoned, line: f0.line }, None)
        }
    } else {
        (f0, None)
    }
}

impl Framer {
    /// The framer's invariant: the buffer holds a well-formed line.
    pub closed spec fn wf(&self) -> bool {
        line_ok(frame_bytes(self.buf))
    }

    pub fn new() -> (r: Self)
        ensures
            r.wf(),
            r@ == fresh(),
    {
        Framer { buf: frame_new(), state: FrameState::Building }
    }

    /// Feed one byte. Returns the assembled line on the LF that completes a
    /// non-empty line that did not overflow.
    pub fn feed(&mut self, b: u8) -> (r: Option<&[u8]>)
        requires
            old(self).wf(),
        ensures
            final(self).wf(),
            (final(self)@, match r {
                Some(s) => Some(s@),
                None => None,
            }) == step(old(self)@, b),
    {
        if self.state == FrameState::Holding {
            frame_clear(&mut self.buf);
            self.state = FrameState::Building;
        }
        if b == CR {
            None
        } else if b == BS || b == DEL {
            if self.state == FrameState::Building {
                frame_pop(&mut self.buf);
            }
            None
        } else if b == LF {
            if self.state == FrameState::Poisoned {
                frame_clear(&mut self.buf);
                self.state = FrameState::Building;
                None
            } else if frame_len(&self.buf) == 0 {
                None
            } else {
                self.state = FrameState::Holding;
                Some(frame_as_slice(&self.buf))
            }
        } else {
            if self.state == FrameState::Building {
                if !frame_push(&mut self.buf, b) {
                    self.state = FrameState::Poisoned;
                }
            }
            None
        }
    }

    /// Bytes held for the line being assembled; 0 unless assembling (a held
    /// or poisoned line is not live).
    pub fn line_len(&self) -> (n: usize)
        requires
            self.wf(),
        ensures
            n == (if self@.state == FrameState::Building {
                self@.line.len()
            } else {
                0
            }),
    {
        match self.state {
            FrameState::Building => frame_len(&self.buf),
            _ => 0,
        }
    }
}

} // verus!

verus! {

/// The framer state after feeding `s`, one byte at a time, from `f`.
pub open spec fn run(f: FramerV, s: Seq<u8>) -> FramerV
    decreases s.len(),
{
    if s.len() == 0 {
        f
    } else {
        step(run(f, s.drop_last()), s.last()).0
    }
}

proof fn lemma_run_content(s: Seq<u8>)
    requires
        forall|i: int| 0 <= i < s.len() ==> is_content(#[trigger] s[i]),
    ensures
        s.len() <= LINE_CAP ==> run(fresh(), s) == (FramerV { state: FrameState::Building, line: s }),
        s.len() > LINE_CAP ==> run(fresh(), s) == (FramerV {
            state: FrameState::Poisoned,
            line: s.take(LINE_CAP as int),
        }),
    decreases s.len(),
{
    if s.len() > 0 {
        let p = s.drop_last();
        assert forall|i: int| 0 <= i < p.len() implies is_content(#[trigger] p[i]) by {
            assert(p[i] == s[i]);
        }
        lemma_run_content(p);
        assert(is_content(s[s.len() - 1]));
        if s.len() <= LINE_CAP {
            assert(p.push(s.last()) =~= s);
        } else if s.len() == LINE_CAP + 1 {
            assert(p =~= s.take(LINE_CAP as int));
        } else {
            assert(p.take(LINE_CAP as int) =~= s.take(LINE_CAP as int));
        }
    } else {
        assert(s =~= Seq::<u8>::empty());
    }
}

/// A line of 1 to `LINE_CAP` content bytes fed to a fresh framer is reported,
/// unchanged, on its LF.
pub proof fn law_line_roundtrip(s: Seq<u8>)
    requires
        1 <= s.len() <= LINE_CAP,
        forall|i: int| 0 <= i < s.len() ==> is_content(#[trigger] s[i]),
    ensures
        step(run(fresh(), s), LF).1 == Some(s),
{
    lemma_run_content(s);
}

/// A line longer than `LINE_CAP` is dropped: its LF reports nothing and leaves
/// the framer as if fresh.
pub proof fn law_overlong_line_dropped(s: Seq<u8>)
    requires
        s.len() > LINE_CAP,
        forall|i: int| 0 <= i < s.len() ==> is_content(#[trigger] s[i]),
    ensures
        step(run(fresh(), s), LF) == (fresh(), None::<Seq<u8>>),
{
    lemma_run_content(s);
}

/// Every reported line is non-empty, at most `LINE_CAP` bytes, and free of
/// LF, CR, backspace and DEL.
pub proof fn law_reported_line_ok(f: FramerV, b: u8)
    requires
        line_ok(f.line),
    ensures
        step(f, b).1 matches Some(s) ==> s.len() > 0 && line_ok(s),
        line_ok(step(f, b).0.line),
{
    let f0 = if f.state == FrameState::Holding {
        fresh()
    } else {
        f
    };
    if b == BS || b == DEL {
        if f0.line.len() > 0 {
            let d = f0.line.drop_last();
            assert forall|i: int| 0 <= i < d.len() implies is_content(#[trigger] d[i]) by {
                assert(d[i] == f0.line[i]);
            }
        }
    } else if b != CR && b != LF && f0.state == FrameState::Building && f0.line.len() < LINE_CAP {
        let e = f0.line.push(b);
        assert forall|i: int| 0 <= i < e.len() implies is_content(#[trigger] e[i]) by {
            if i < f0.line.len() {
                assert(e[i] == f0.line[i]);
            }
        }
    }
}

/// CR is ignored: it never completes a line, and a CR before a byte does not
/// change what that byte does.
pub proof fn law_cr_ignored(f: FramerV, b: u8)
    ensures
        step(f, CR).1 is None,
        step(step(f, CR).0, b) == step(f, b),
{
}

} // verus!
