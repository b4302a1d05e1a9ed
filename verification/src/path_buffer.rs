//! Notch accounting of the EDM path buffer.
//!
//! The path buffer keeps the last `N` notch-aligned positions in a ring, newest
//! at `ix_history`; the cursor sits `notches_retract` notches behind the
//! newest. Moving by a whole number of notches first uses up retraction, then
//! walks forward along the path (one new history entry per notch). Retraction
//! is limited to the history held. Positions themselves (floating point) are
//! kept by the caller, indexed by the ring slots this module hands out.

use vstd::prelude::*;

verus! {

#[derive(Clone, Copy, Debug, PartialEq, Eq, Structural)]
pub enum MoveError {
    /// Retraction limit hit. The cursor is clipped to the furthest retract point.
    RetractLimitExceeded,
}

pub struct NotchHistory<const N: usize> {
    ix_history: usize,
    num_history: usize,
    notches_retract: i32,
    cum_notches: i32,
}

pub struct NotchHistoryV {
    /// Ring slot of the newest position.
    pub ix: nat,
    /// Number of positions held, newest included.
    pub num: nat,
    /// Notches the cursor is behind the newest position.
    pub retract: int,
    /// Net notches moved since the start (forward minus backward).
    pub cum: int,
}

impl<const N: usize> View for NotchHistory<N> {
    type V = NotchHistoryV;

    closed spec fn view(&self) -> NotchHistoryV {
        NotchHistoryV {
            ix: self.ix_history as nat,
            num: self.num_history as nat,
            retract: self.notches_retract as int,
            cum: self.cum_notches as int,
        }
    }
}

/// The accounting of a move by `d` notches: the new counters, the notches to
/// walk forward along the path, and whether retraction was clipped.
pub open spec fn step_spec(h: NotchHistoryV, d: int) -> (NotchHistoryV, int, bool) {
    if d == 0 {
        (h, 0, true)
    } else if d < 0 {
        let available = h.num - h.retract - 1;
        if d < -available {
            (NotchHistoryV { retract: h.retract + available, cum: h.cum - available, ..h }, 0, false)
        } else {
            (NotchHistoryV { retract: h.retract - d, cum: h.cum + d, ..h }, 0, true)
        }
    } else if h.retract > d {
        (NotchHistoryV { retract: h.retract - d, cum: h.cum + d, ..h }, 0, true)
    } else {
        (NotchHistoryV { retract: 0, cum: h.cum + h.retract, ..h }, d - h.retract, true)
    }
}

impl<const N: usize> NotchHistory<N> {
    /// The ring holds between one and `N` positions and the cursor lies within them.
    pub open spec fn wf_view(v: NotchHistoryV) -> bool {
        &&& 1 <= N <= i32::MAX
        &&& v.ix < N
        &&& 1 <= v.num <= N
        &&& 0 <= v.retract <= v.num - 1
    }

    pub closed spec fn wf(&self) -> bool {
        Self::wf_view(self@) && i32::MIN <= self@.cum <= i32::MAX
    }

    /// One position held (the start), cursor on it.
    pub fn new() -> (r: Self)
        requires
            1 <= N <= i32::MAX,
        ensures
            r.wf(),
            r@ == (NotchHistoryV { ix: 0, num: 1, retract: 0, cum: 0 }),
    {
        NotchHistory { ix_history: 0, num_history: 1, notches_retract: 0, cum_notches: 0 }
    }

    /// Ring slot of the cursor position.
    pub fn position_index(&self) -> (i: usize)
        requires
            self.wf(),
        ensures
            i == (self@.ix + N - self@.retract) % (N as int),
            i < N,
    {
        (self.ix_history + N - self.notches_retract as usize) % N
    }

    /// Ring slot of the newest position.
    pub fn newest_index(&self) -> (i: usize)
        requires
            self.wf(),
        ensures
            i == self@.ix,
    {
        self.ix_history
    }

    /// Notches the cursor is behind the newest position.
    pub fn retract_notches(&self) -> (r: i32)
        requires
            self.wf(),
        ensures
            r == self@.retract,
    {
        self.notches_retract
    }

    /// Notches the cursor can still retract.
    pub fn backward_notches(&self) -> (r: i32)
        requires
            self.wf(),
        ensures
            r == self@.num - 1 - self@.retract,
    {
        (self.num_history as i32 - 1) - self.notches_retract
    }

    /// Net notches moved since the start.
    pub fn cum_notches(&self) -> (r: i32)
        requires
            self.wf(),
        ensures
            r == self@.cum,
    {
        self.cum_notches
    }

    /// Account a move by `d` notches (negative retracts). Returns the number
    /// of notches still to walk forward along the path, or the retraction
    /// error after clipping the cursor to the oldest position.
    pub fn step(&mut self, d: i32) -> (r: Result<i32, MoveError>)
        requires
            old(self).wf(),
            i32::MIN <= old(self)@.cum + d <= i32::MAX,
        ensures
            final(self).wf(),
            ({
                let (h, fwd, ok) = step_spec(old(self)@, d as int);
                &&& final(self)@ == h
                &&& ok ==> r == Ok::<i32, MoveError>(fwd as i32)
                &&& !ok ==> r == Err::<i32, MoveError>(MoveError::RetractLimitExceeded)
            }),
    {
        if d == 0 {
            return Ok(0);
        }
        if d < 0 {
            let available = self.num_history as i32 - self.notches_retract - 1;
            if d < -available {
                self.notches_retract = self.notches_retract + available;
                self.cum_notches = self.cum_notches - available;
                return Err(MoveError::RetractLimitExceeded);
            } else {
                self.notches_retract = self.notches_retract - d;
                self.cum_notches = self.cum_notches + d;
                return Ok(0);
            }
        } else if self.notches_retract > d {
            self.notches_retract = self.notches_retract - d;
            self.cum_notches = self.cum_notches + d;
            return Ok(0);
        }
        let fwd = d - self.notches_retract;
        self.cum_notches = self.cum_notches + self.notches_retract;
        self.notches_retract = 0;
        Ok(fwd)
    }

    /// Record one notch walked forward: a new newest position, whose ring slot
    /// is returned for the caller to fill. The oldest is dropped when full.
    pub fn push(&mut self) -> (i: usize)
        requires
            old(self).wf(),
            old(self)@.retract == 0,
            old(self)@.cum < i32::MAX,
        ensures
            final(self).wf(),
            i == final(self)@.ix,
            final(self)@ == (NotchHistoryV {
                ix: (old(self)@.ix + 1) % (N as nat),
                num: if old(self)@.num < N {
                    old(self)@.num + 1
                } else {
                    N as nat
                },
                retract: 0,
                cum: old(self)@.cum + 1,
            }),
    {
        self.ix_history = (self.ix_history + 1) % N;
        if self.num_history < N {
            self.num_history = self.num_history + 1;
        }
        self.cum_notches = self.cum_notches + 1;
        self.ix_history
    }
}

/// Retracting `k` notches within the history, then advancing `k`, puts the
/// cursor back where it was, with no notch to walk and the net count unchanged.
pub proof fn law_retract_then_advance<const N: usize>(h: NotchHistoryV, k: int)
    requires
        NotchHistory::<N>::wf_view(h),
        0 < k <= h.num - h.retract - 1,
    ensures
        step_spec(step_spec(h, -k).0, k) == (h, 0int, true),
{
    let h1 = step_spec(h, -k).0;
    assert(h1 == NotchHistoryV { retract: h.retract + k, cum: h.cum - k, ..h });
    let r = step_spec(h1, k);
    if h.retract == 0 {
        assert(r.0 == NotchHistoryV { retract: 0, cum: h.cum, ..h });
        assert(r.0 =~= h);
    } else {
        assert(r.0 == NotchHistoryV { retract: h.retract, cum: h.cum, ..h });
    }
}

/// Retraction never leaves the history: after any move the cursor is between
/// the oldest and the newest position.
pub proof fn law_cursor_in_history<const N: usize>(h: NotchHistoryV, d: int)
    requires
        NotchHistory::<N>::wf_view(h),
    ensures
        NotchHistory::<N>::wf_view(step_spec(h, d).0),
        step_spec(h, d).1 >= 0,
{
}

} // verus!
