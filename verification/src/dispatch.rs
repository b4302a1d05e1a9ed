//! Settings-key routing: the one place that maps a raw settings key onto the
//! subsystem setting it names. Keys are dot-separated segments, for example
//! `m.3.current`, `cs.w.pos.x` or `a.y.home.travel`.

use vstd::prelude::*;
use vstd::string::StringSliceAdditionalSpecFns;

use crate::bytes::eq_bytes;
use crate::coords::{Axis, CoordSys};
use crate::hvec::key_index;
use crate::settings::{
    axis_letter, cs_key, cs_text, entry_key, home_key, home_prop, home_text, motor_key, motor_prop,
    motor_text, store, Repo, N_KEYS, N_MOTORS,
};

verus! {

#[derive(Clone, Copy, Debug, PartialEq, Eq, Structural)]
pub enum Error {
    UnknownKey,
    ApplyFailed,
}

/// A homing property of an axis.
#[derive(Clone, Copy, Debug, PartialEq, Eq, Structural)]
pub enum HomeProp {
    Origin,
    Phase,
    Side,
    Travel,
}

/// The setting a key names.
#[derive(Clone, Copy, Debug, PartialEq, Eq, Structural)]
pub enum Route {
    /// `m.<i>.current`
    MotorCurrent(usize),
    /// `m.<i>.microstep`
    MotorMicrostep(usize),
    /// `m.<i>.thresh`
    MotorThresh(usize),
    /// `m.<i>.unitsteps`
    MotorUnitsteps(usize),
    /// `cs.<w|g>.pos.<x|y|z>`
    CoordOffset(CoordSys, Axis),
    /// `a.<x|y|z>.home.<origin|phase|side|travel>`
    AxisHome(Axis, HomeProp),
}

/// `m`
pub open spec fn seg_m() -> Seq<u8> {
    seq![0x6du8]
}

fn is_seg_m(s: &[u8]) -> (r: bool)
    ensures
        r == (s@ == seg_m()),
{
    let r = s.len() == 1 && s[0] == 0x6du8;
    proof {
        if s@.len() == 1 && s@[0] == 0x6du8 {
            assert(s@ =~= seg_m());
        }
    }
    r
}

/// `current`
pub open spec fn seg_current() -> Seq<u8> {
    seq![0x63u8, 0x75u8, 0x72u8, 0x72u8, 0x65u8, 0x6eu8, 0x74u8]
}

fn is_seg_current(s: &[u8]) -> (r: bool)
    ensures
        r == (s@ == seg_current()),
{
    let r = eq_bytes(s, &[0x63u8, 0x75u8, 0x72u8, 0x72u8, 0x65u8, 0x6eu8, 0x74u8]);
    assert(seg_current() =~= seq![0x63u8, 0x75u8, 0x72u8, 0x72u8, 0x65u8, 0x6eu8, 0x74u8]);
    r
}

/// `microstep`
pub open spec fn seg_microstep() -> Seq<u8> {
    seq![0x6du8, 0x69u8, 0x63u8, 0x72u8, 0x6fu8, 0x73u8, 0x74u8, 0x65u8, 0x70u8]
}

fn is_seg_microstep(s: &[u8]) -> (r: bool)
    ensures
        r == (s@ == seg_microstep()),
{
    let r = eq_bytes(s, &[0x6du8, 0x69u8, 0x63u8, 0x72u8, 0x6fu8, 0x73u8, 0x74u8, 0x65u8, 0x70u8]);
    assert(seg_microstep() =~= seq![0x6du8, 0x69u8, 0x63u8, 0x72u8, 0x6fu8, 0x73u8, 0x74u8, 0x65u8, 0x70u8]);
    r
}

/// `thresh`
pub open spec fn seg_thresh() -> Seq<u8> {
    seq![0x74u8, 0x68u8, 0x72u8, 0x65u8, 0x73u8, 0x68u8]
}

fn is_seg_thresh(s: &[u8]) -> (r: bool)
    ensures
        r == (s@ == seg_thresh()),
{
    let r = eq_bytes(s, &[0x74u8, 0x68u8, 0x72u8, 0x65u8, 0x73u8, 0x68u8]);
    assert(seg_thresh() =~= seq![0x74u8, 0x68u8, 0x72u8, 0x65u8, 0x73u8, 0x68u8]);
    r
}

/// `unitsteps`
pub open spec fn seg_unitsteps() -> Seq<u8> {
    seq![0x75u8, 0x6eu8, 0x69u8, 0x74u8, 0x73u8, 0x74u8, 0x65u8, 0x70u8, 0x73u8]
}

fn is_seg_unitsteps(s: &[u8]) -> (r: bool)
    ensures
        r == (s@ == seg_unitsteps()),
{
    let r = eq_bytes(s, &[0x75u8, 0x6eu8, 0x69u8, 0x74u8, 0x73u8, 0x74u8, 0x65u8, 0x70u8, 0x73u8]);
    assert(seg_unitsteps() =~= seq![0x75u8, 0x6eu8, 0x69u8, 0x74u8, 0x73u8, 0x74u8, 0x65u8, 0x70u8, 0x73u8]);
    r
}

/// `cs`
pub open spec fn seg_cs() -> Seq<u8> {
    seq![0x63u8, 0x73u8]
}

fn is_seg_cs(s: &[u8]) -> (r: bool)
    ensures
        r == (s@ == seg_cs()),
{
    let r = eq_bytes(s, &[0x63u8, 0x73u8]);
    assert(seg_cs() =~= seq![0x63u8, 0x73u8]);
    r
}

/// `pos`
pub open spec fn seg_pos() -> Seq<u8> {
    seq![0x70u8, 0x6fu8, 0x73u8]
}

fn is_seg_pos(s: &[u8]) -> (r: bool)
    ensures
        r == (s@ == seg_pos()),
{
    let r = eq_bytes(s, &[0x70u8, 0x6fu8, 0x73u8]);
    assert(seg_pos() =~= seq![0x70u8, 0x6fu8, 0x73u8]);
    r
}

/// `a`
pub open spec fn seg_a() -> Seq<u8> {
    seq![0x61u8]
}

fn is_seg_a(s: &[u8]) -> (r: bool)
    ensures
        r == (s@ == seg_a()),
{
    let r = s.len() == 1 && s[0] == 0x61u8;
    proof {
        if s@.len() == 1 && s@[0] == 0x61u8 {
            assert(s@ =~= seg_a());
        }
    }
    r
}

/// `home`
pub open spec fn seg_home() -> Seq<u8> {
    seq![0x68u8, 0x6fu8, 0x6du8, 0x65u8]
}

fn is_seg_home(s: &[u8]) -> (r: bool)
    ensures
        r == (s@ == seg_home()),
{
    let r = eq_bytes(s, &[0x68u8, 0x6fu8, 0x6du8, 0x65u8]);
    assert(seg_home() =~= seq![0x68u8, 0x6fu8, 0x6du8, 0x65u8]);
    r
}

/// `origin`
pub open spec fn seg_origin() -> Seq<u8> {
    seq![0x6fu8, 0x72u8, 0x69u8, 0x67u8, 0x69u8, 0x6eu8]
}

fn is_seg_origin(s: &[u8]) -> (r: bool)
    ensures
        r == (s@ == seg_origin()),
{
    let r = eq_bytes(s, &[0x6fu8, 0x72u8, 0x69u8, 0x67u8, 0x69u8, 0x6eu8]);
    assert(seg_origin() =~= seq![0x6fu8, 0x72u8, 0x69u8, 0x67u8, 0x69u8, 0x6eu8]);
    r
}

/// `phase`
pub open spec fn seg_phase() -> Seq<u8> {
    seq![0x70u8, 0x68u8, 0x61u8, 0x73u8, 0x65u8]
}

fn is_seg_phase(s: &[u8]) -> (r: bool)
    ensures
        r == (s@ == seg_phase()),
{
    let r = eq_bytes(s, &[0x70u8, 0x68u8, 0x61u8, 0x73u8, 0x65u8]);
    assert(seg_phase() =~= seq![0x70u8, 0x68u8, 0x61u8, 0x73u8, 0x65u8]);
    r
}

/// `side`
pub open spec fn seg_side() -> Seq<u8> {
    seq![0x73u8, 0x69u8, 0x64u8, 0x65u8]
}

fn is_seg_side(s: &[u8]) -> (r: bool)
    ensures
        r == (s@ == seg_side()),
{
    let r = eq_bytes(s, &[0x73u8, 0x69u8, 0x64u8, 0x65u8]);
    assert(seg_side() =~= seq![0x73u8, 0x69u8, 0x64u8, 0x65u8]);
    r
}

/// `travel`
pub open spec fn seg_travel() -> Seq<u8> {
    seq![0x74u8, 0x72u8, 0x61u8, 0x76u8, 0x65u8, 0x6cu8]
}

fn is_seg_travel(s: &[u8]) -> (r: bool)
    ensures
        r == (s@ == seg_travel()),
{
    let r = eq_bytes(s, &[0x74u8, 0x72u8, 0x61u8, 0x76u8, 0x65u8, 0x6cu8]);
    assert(seg_travel() =~= seq![0x74u8, 0x72u8, 0x61u8, 0x76u8, 0x65u8, 0x6cu8]);
    r
}

/// `w`
pub open spec fn seg_w() -> Seq<u8> {
    seq![0x77u8]
}

fn is_seg_w(s: &[u8]) -> (r: bool)
    ensures
        r == (s@ == seg_w()),
{
    let r = s.len() == 1 && s[0] == 0x77u8;
    proof {
        if s@.len() == 1 && s@[0] == 0x77u8 {
            assert(s@ =~= seg_w());
        }
    }
    r
}

/// `g`
pub open spec fn seg_g() -> Seq<u8> {
    seq![0x67u8]
}

fn is_seg_g(s: &[u8]) -> (r: bool)
    ensures
        r == (s@ == seg_g()),
{
    let r = s.len() == 1 && s[0] == 0x67u8;
    proof {
        if s@.len() == 1 && s@[0] == 0x67u8 {
            assert(s@ =~= seg_g());
        }
    }
    r
}

/// `x`
pub open spec fn seg_x() -> Seq<u8> {
    seq![0x78u8]
}

fn is_seg_x(s: &[u8]) -> (r: bool)
    ensures
        r == (s@ == seg_x()),
{
    let r = s.len() == 1 && s[0] == 0x78u8;
    proof {
        if s@.len() == 1 && s@[0] == 0x78u8 {
            assert(s@ =~= seg_x());
        }
    }
    r
}

/// `y`
pub open spec fn seg_y() -> Seq<u8> {
    seq![0x79u8]
}

fn is_seg_y(s: &[u8]) -> (r: bool)
    ensures
        r == (s@ == seg_y()),
{
    let r = s.len() == 1 && s[0] == 0x79u8;
    proof {
        if s@.len() == 1 && s@[0] == 0x79u8 {
            assert(s@ =~= seg_y());
        }
    }
    r
}

/// `z`
pub open spec fn seg_z() -> Seq<u8> {
    seq![0x7au8]
}

fn is_seg_z(s: &[u8]) -> (r: bool)
    ensures
        r == (s@ == seg_z()),
{
    let r = s.len() == 1 && s[0] == 0x7au8;
    proof {
        if s@.len() == 1 && s@[0] == 0x7au8 {
            assert(s@ =~= seg_z());
        }
    }
    r
}

/// The `.`-separated segments of `s`; empty segments are kept.
pub open spec fn segments(s: Seq<u8>) -> Seq<Seq<u8>>
    decreases s.len(),
{
    if s.len() == 0 {
        seq![Seq::<u8>::empty()]
    } else {
        let p = segments(s.drop_last());
        if s.last() == 0x2eu8 {
            p.push(Seq::<u8>::empty())
        } else {
            p.update(p.len() - 1, p.last().push(s.last()))
        }
    }
}

proof fn lemma_segments_nonempty(s: Seq<u8>)
    ensures
        segments(s).len() >= 1,
    decreases s.len(),
{
    if s.len() > 0 {
        lemma_segments_nonempty(s.drop_last());
    }
}

pub open spec fn is_digit(b: u8) -> bool {
    0x30u8 <= b <= 0x39u8
}

/// The value of a run of decimal digits.
pub open spec fn digits_value(s: Seq<u8>) -> nat
    decreases s.len(),
{
    if s.len() == 0 {
        0
    } else {
        10 * digits_value(s.drop_last()) + (s.last() - 0x30u8) as nat
    }
}

/// An unsigned decimal as `usize` parsing accepts it: optional `+`, then digits.
pub open spec fn unsigned_digits(s: Seq<u8>) -> Option<Seq<u8>> {
    let d = unsigned_body(s);
    if all_digits(d) {
        Some(d)
    } else {
        None
    }
}

/// `s` without a leading `+`.
pub open spec fn unsigned_body(s: Seq<u8>) -> Seq<u8> {
    if s.len() > 0 && s[0] == 0x2bu8 {
        s.skip(1)
    } else {
        s
    }
}

/// A non-empty run of digits.
pub open spec fn all_digits(d: Seq<u8>) -> bool {
    d.len() > 0 && forall|i: int| 0 <= i < d.len() ==> is_digit(#[trigger] d[i])
}

/// A motor index segment: an unsigned decimal below `N_MOTORS`.
pub open spec fn motor_index(s: Seq<u8>) -> Option<usize> {
    match unsigned_digits(s) {
        Some(d) => if digits_value(d) < N_MOTORS {
            Some(digits_value(d) as usize)
        } else {
            None
        },
        None => None,
    }
}

pub open spec fn cs_of(s: Seq<u8>) -> Option<CoordSys> {
    if s == seg_w() {
        Some(CoordSys::Work)
    } else if s == seg_g() {
        Some(CoordSys::Grinder)
    } else {
        None
    }
}

pub open spec fn axis_of(s: Seq<u8>) -> Option<Axis> {
    if s == seg_x() {
        Some(Axis::X)
    } else if s == seg_y() {
        Some(Axis::Y)
    } else if s == seg_z() {
        Some(Axis::Z)
    } else {
        None
    }
}

pub open spec fn home_prop_of(s: Seq<u8>) -> Option<HomeProp> {
    if s == seg_origin() {
        Some(HomeProp::Origin)
    } else if s == seg_phase() {
        Some(HomeProp::Phase)
    } else if s == seg_side() {
        Some(HomeProp::Side)
    } else if s == seg_travel() {
        Some(HomeProp::Travel)
    } else {
        None
    }
}

/// The setting named by a key, or `UnknownKey`.
pub open spec fn route_of(key: Seq<u8>) -> Result<Route, Error> {
    let p = segments(key);
    if p.len() == 3 && p[0] == seg_m() && motor_index(p[1]) is Some && (p[2] == seg_current()
        || p[2] == seg_microstep() || p[2] == seg_thresh() || p[2] == seg_unitsteps()) {
        let i = motor_index(p[1]).unwrap();
        if p[2] == seg_current() {
            Ok(Route::MotorCurrent(i))
        } else if p[2] == seg_microstep() {
            Ok(Route::MotorMicrostep(i))
        } else if p[2] == seg_thresh() {
            Ok(Route::MotorThresh(i))
        } else {
            Ok(Route::MotorUnitsteps(i))
        }
    } else if p.len() == 4 && p[0] == seg_cs() && p[2] == seg_pos() && cs_of(p[1]) is Some
        && axis_of(p[3]) is Some {
        Ok(Route::CoordOffset(cs_of(p[1]).unwrap(), axis_of(p[3]).unwrap()))
    } else if p.len() == 4 && p[0] == seg_a() && p[2] == seg_home() && axis_of(p[1]) is Some
        && home_prop_of(p[3]) is Some {
        Ok(Route::AxisHome(axis_of(p[1]).unwrap(), home_prop_of(p[3]).unwrap()))
    } else {
        Err(Error::UnknownKey)
    }
}

} // verus!

verus! {

/// The byte ranges of the `.`-separated segments of `s`.
fn split_dots(s: &[u8]) -> (spans: Vec<(usize, usize)>)
    ensures
        spans@.len() == segments(s@).len(),
        forall|k: int|
            #![trigger spans@[k]]
            0 <= k < spans@.len() ==> {
                &&& spans@[k].0 <= spans@[k].1 <= s@.len()
                &&& s@.subrange(spans@[k].0 as int, spans@[k].1 as int) == segments(s@)[k]
            },
{
    let mut spans: Vec<(usize, usize)> = Vec::new();
    let mut start: usize = 0;
    let mut i: usize = 0;
    assert(s@.take(0) =~= Seq::<u8>::empty());
    assert(s@.subrange(0, 0) =~= Seq::<u8>::empty());
    while i < s.len()
        invariant
            start <= i <= s@.len(),
            spans@.len() + 1 == segments(s@.take(i as int)).len(),
            forall|k: int|
                #![trigger spans@[k]]
                0 <= k < spans@.len() ==> {
                    &&& spans@[k].0 <= spans@[k].1 <= i
                    &&& s@.subrange(spans@[k].0 as int, spans@[k].1 as int) == segments(
                        s@.take(i as int),
                    )[k]
                },
            segments(s@.take(i as int)).last() == s@.subrange(start as int, i as int),
        decreases s@.len() - i,
    {
        let b = s[i];
        let ghost prev = segments(s@.take(i as int));
        proof {
            assert(s@.take(i + 1).drop_last() =~= s@.take(i as int));
            assert(s@.take(i + 1).last() == b);
        }
        if b == 0x2eu8 {
            spans.push((start, i));
            start = i + 1;
            proof {
                assert(s@.subrange(start as int, i + 1) =~= Seq::<u8>::empty());
            }
        } else {
            proof {
                assert(s@.subrange(start as int, i + 1) =~= s@.subrange(start as int, i as int).push(
                    b,
                ));
            }
        }
        i = i + 1;
    }
    assert(s@.take(s@.len() as int) =~= s@);
    spans.push((start, s.len()));
    spans
}

/// The saturated value (at most `N_MOTORS`) of the digits of `s[a..b]`.
fn index_sat(s: &[u8], a: usize, b: usize) -> (v: usize)
    requires
        a <= b <= s@.len(),
        forall|i: int| a <= i < b ==> is_digit(#[trigger] s@[i]),
    ensures
        v == (if digits_value(s@.subrange(a as int, b as int)) < N_MOTORS {
            digits_value(s@.subrange(a as int, b as int))
        } else {
            N_MOTORS as nat
        }),
{
    let mut v: usize = 0;
    let mut i: usize = a;
    assert(s@.subrange(a as int, a as int).len() == 0);
    while i < b
        invariant
            a <= i <= b <= s@.len(),
            forall|j: int| a <= j < b ==> is_digit(#[trigger] s@[j]),
            v == (if digits_value(s@.subrange(a as int, i as int)) < N_MOTORS {
                digits_value(s@.subrange(a as int, i as int))
            } else {
                N_MOTORS as nat
            }),
        decreases b - i,
    {
        let d = s[i];
        assert(is_digit(s@[i as int]));
        proof {
            assert(s@.subrange(a as int, i + 1).drop_last() =~= s@.subrange(a as int, i as int));
        }
        if v < N_MOTORS {
            let nv: usize = v * 10 + (d - 0x30u8) as usize;
            if nv < N_MOTORS {
                v = nv;
            } else {
                v = N_MOTORS;
            }
        }
        i = i + 1;
    }
    v
}

/// Motor index named by `seg`.
fn motor_idx(seg: &[u8]) -> (r: Option<usize>)
    ensures
        r == motor_index(seg@),
{
    let mut a: usize = 0;
    if seg.len() > 0 && seg[0] == 0x2bu8 {
        a = 1;
    }
    let ghost d = unsigned_body(seg@);
    assert(d =~= seg@.subrange(a as int, seg@.len() as int));
    if a >= seg.len() {
        return None;
    }
    let mut i: usize = a;
    while i < seg.len()
        invariant
            a <= i <= seg@.len(),
            a < seg@.len(),
            d == seg@.subrange(a as int, seg@.len() as int),
            d == unsigned_body(seg@),
            forall|j: int| a <= j < i ==> is_digit(#[trigger] seg@[j]),
        decreases seg@.len() - i,
    {
        if !(0x30u8 <= seg[i] && seg[i] <= 0x39u8) {
            proof {
                assert(d[i - a] == seg@[i as int]);
                assert(!is_digit(d[i - a]));
                assert(d == unsigned_body(seg@));
                assert(!all_digits(d));
            }
            return None;
        }
        i = i + 1;
    }
    assert forall|j: int| 0 <= j < d.len() implies is_digit(#[trigger] d[j]) by {
        assert(d[j] == seg@[a + j]);
    }
    let v = index_sat(seg, a, seg.len());
    if v < N_MOTORS {
        Some(v)
    } else {
        None
    }
}

fn cs_seg(s: &[u8]) -> (r: Option<CoordSys>)
    ensures
        r == cs_of(s@),
{
    if is_seg_w(s) {
        Some(CoordSys::Work)
    } else if is_seg_g(s) {
        Some(CoordSys::Grinder)
    } else {
        None
    }
}

fn axis_seg(s: &[u8]) -> (r: Option<Axis>)
    ensures
        r == axis_of(s@),
{
    if is_seg_x(s) {
        Some(Axis::X)
    } else if is_seg_y(s) {
        Some(Axis::Y)
    } else if is_seg_z(s) {
        Some(Axis::Z)
    } else {
        None
    }
}

fn home_prop_seg(s: &[u8]) -> (r: Option<HomeProp>)
    ensures
        r == home_prop_of(s@),
{
    if is_seg_origin(s) {
        Some(HomeProp::Origin)
    } else if is_seg_phase(s) {
        Some(HomeProp::Phase)
    } else if is_seg_side(s) {
        Some(HomeProp::Side)
    } else if is_seg_travel(s) {
        Some(HomeProp::Travel)
    } else {
        None
    }
}

/// The setting a settings key names, or `UnknownKey`.
pub fn route(key: &str) -> (r: Result<Route, Error>)
    ensures
        r == route_of(key.spec_bytes()),
{
    let s = key.as_bytes();
    let spans = split_dots(s);
    let ghost p = segments(s@);
    let n = spans.len();
    if n == 3 {
        let (a0, b0) = spans[0];
        let (a1, b1) = spans[1];
        let (a2, b2) = spans[2];
        let p0 = vstd::slice::slice_subrange(s, a0, b0);
        let p1 = vstd::slice::slice_subrange(s, a1, b1);
        let p2 = vstd::slice::slice_subrange(s, a2, b2);
        assert(p0@ == p[0] && p1@ == p[1] && p2@ == p[2]);
        if is_seg_m(p0) {
            if let Some(i) = motor_idx(p1) {
                if is_seg_current(p2) {
                    return Ok(Route::MotorCurrent(i));
                } else if is_seg_microstep(p2) {
                    return Ok(Route::MotorMicrostep(i));
                } else if is_seg_thresh(p2) {
                    return Ok(Route::MotorThresh(i));
                } else if is_seg_unitsteps(p2) {
                    return Ok(Route::MotorUnitsteps(i));
                }
            }
        }
        return Err(Error::UnknownKey);
    }
    if n == 4 {
        let (a0, b0) = spans[0];
        let (a1, b1) = spans[1];
        let (a2, b2) = spans[2];
        let (a3, b3) = spans[3];
        let p0 = vstd::slice::slice_subrange(s, a0, b0);
        let p1 = vstd::slice::slice_subrange(s, a1, b1);
        let p2 = vstd::slice::slice_subrange(s, a2, b2);
        let p3 = vstd::slice::slice_subrange(s, a3, b3);
        assert(p0@ == p[0] && p1@ == p[1] && p2@ == p[2] && p3@ == p[3]);
        if is_seg_cs(p0) && is_seg_pos(p2) {
            if let Some(cs) = cs_seg(p1) {
                if let Some(ax) = axis_seg(p3) {
                    return Ok(Route::CoordOffset(cs, ax));
                }
            }
        }
        if is_seg_a(p0) && is_seg_home(p2) {
            if let Some(ax) = axis_seg(p1) {
                if let Some(prop) = home_prop_seg(p3) {
                    return Ok(Route::AxisHome(ax, prop));
                }
            }
        }
        return Err(Error::UnknownKey);
    }
    Err(Error::UnknownKey)
}

} // verus!

verus! {

/// Where a write of `key` goes: unknown unless the repo has the key and the
/// key names a setting.
pub fn plan_write(repo: &Repo, key: &str) -> (r: Result<Route, Error>)
    ensures
        key_index(repo@, key.spec_bytes()) < 0 ==> r == Err::<Route, Error>(Error::UnknownKey),
        key_index(repo@, key.spec_bytes()) >= 0 ==> r == route_of(key.spec_bytes()),
{
    if !repo.contains(key) {
        return Err(Error::UnknownKey);
    }
    route(key)
}

/// Finish a write of value bits `v` under `key` whose application to the
/// owning subsystem reported `applied`: the repo is updated only on success.
pub fn commit_write(repo: &mut Repo, key: &str, v: u32, applied: Result<(), Error>) -> (r: Result<
    (),
    Error,
>)
    requires
        old(repo).wf(),
        key_index(old(repo)@, key.spec_bytes()) >= 0,
    ensures
        final(repo).wf(),
        r == applied,
        applied is Ok ==> final(repo)@ == store(old(repo)@, key.spec_bytes(), v),
        applied is Err ==> final(repo)@ == old(repo)@,
{
    if applied.is_ok() {
        let _ = repo.set(key, v);
    }
    applied
}

} // verus!

verus! {

pub open spec fn dot_free(w: Seq<u8>) -> bool {
    forall|i: int| 0 <= i < w.len() ==> #[trigger] w[i] != 0x2eu8
}

/// A dot-free word is one segment.
proof fn lemma_segments_word(w: Seq<u8>)
    requires
        dot_free(w),
    ensures
        segments(w) == seq![w],
    decreases w.len(),
{
    if w.len() > 0 {
        lemma_segments_word(w.drop_last());
        assert(w.drop_last().push(w.last()) =~= w);
    } else {
        assert(w =~= Seq::<u8>::empty());
    }
}

/// Appending `.` and a dot-free word adds that word as the last segment.
proof fn lemma_segments_extend(s: Seq<u8>, w: Seq<u8>)
    requires
        dot_free(w),
    ensures
        segments(s.push(0x2eu8) + w) == segments(s).push(w),
    decreases w.len(),
{
    let t = s.push(0x2eu8) + w;
    if w.len() == 0 {
        assert(w =~= Seq::<u8>::empty());
        assert(t =~= s.push(0x2eu8));
        assert(t.drop_last() =~= s);
    } else {
        lemma_segments_extend(s, w.drop_last());
        assert(t.drop_last() =~= s.push(0x2eu8) + w.drop_last());
        assert(t.last() == w.last());
        assert(w[w.len() - 1] != 0x2eu8);
        let p = segments(s).push(w.drop_last());
        assert(p.update(p.len() - 1, p.last().push(w.last())) =~= segments(s).push(w)) by {
            assert(w.drop_last().push(w.last()) =~= w);
        }
    }
}

/// Four dot-free words joined by dots split back into those words.
proof fn lemma_segments4(a: Seq<u8>, b: Seq<u8>, c: Seq<u8>, d: Seq<u8>)
    requires
        dot_free(a),
        dot_free(b),
        dot_free(c),
        dot_free(d),
    ensures
        segments(a.push(0x2eu8) + b + seq![0x2eu8] + c + seq![0x2eu8] + d) == seq![a, b, c, d],
{
    lemma_segments_word(a);
    lemma_segments_extend(a, b);
    let ab = a.push(0x2eu8) + b;
    lemma_segments_extend(ab, c);
    let abc = ab.push(0x2eu8) + c;
    lemma_segments_extend(abc, d);
    assert(a.push(0x2eu8) + b + seq![0x2eu8] + c + seq![0x2eu8] + d =~= abc.push(0x2eu8) + d);
    assert(ab.push(0x2eu8) + c =~= a.push(0x2eu8) + b + seq![0x2eu8] + c);
    assert(seq![a].push(b).push(c).push(d) =~= seq![a, b, c, d]);
}

/// Every key of the repo names a setting, so replaying the whole repo into
/// the subsystems at start-up never meets an unknown key.
pub proof fn law_repo_keys_route(n: int)
    requires
        0 <= n < N_KEYS,
    ensures
        route_of(entry_key(n)) is Ok,
{
    if n < 12 {
        let a = n / 4;
        let p = n % 4;
        let l = seq![axis_letter(a)];
        assert(home_key(a, p) =~= seg_a().push(0x2eu8) + l + seq![0x2eu8] + seg_home() + seq![
            0x2eu8,
        ] + home_prop(p));
        lemma_segments4(seg_a(), l, seg_home(), home_prop(p));
        assert(home_prop(p) == seg_origin() || home_prop(p) == seg_phase() || home_prop(p)
            == seg_side() || home_prop(p) == seg_travel());
        assert(l == seg_x() || l == seg_y() || l == seg_z());
    } else if n < 18 {
        let c = (n - 12) / 3;
        let a = (n - 12) % 3;
        let cl = seq![
            if c == 0 {
                0x67u8
            } else {
                0x77u8
            },
        ];
        let l = seq![axis_letter(a)];
        assert(cs_key(c, a) =~= seg_cs().push(0x2eu8) + cl + seq![0x2eu8] + seg_pos() + seq![
            0x2eu8,
        ] + l);
        lemma_segments4(seg_cs(), cl, seg_pos(), l);
        assert(cl == seg_g() || cl == seg_w());
        assert(l == seg_x() || l == seg_y() || l == seg_z());
    } else {
        let m = (n - 18) / 4;
        let p = (n - 18) % 4;
        let d = seq![(0x30 + m) as u8];
        lemma_segments_word(seg_m());
        lemma_segments_extend(seg_m(), d);
        let md = seg_m().push(0x2eu8) + d;
        lemma_segments_extend(md, motor_prop(p));
        assert(motor_key(m, p) =~= md.push(0x2eu8) + motor_prop(p));
        let segs = segments(motor_key(m, p));
        assert(segs =~= seq![seg_m(), d, motor_prop(p)]);
        assert(unsigned_body(d) =~= d);
        assert(0 <= m < 7);
        assert(digits_value(d) == m) by {
            assert(d.drop_last() =~= Seq::<u8>::empty());
            assert(digits_value(d.drop_last()) == 0);
            assert(d.last() == (0x30 + m) as u8);
            assert(((0x30 + m) as u8) - 0x30u8 == m);
        }
        assert(motor_prop(p) == seg_current() || motor_prop(p) == seg_microstep() || motor_prop(p)
            == seg_thresh() || motor_prop(p) == seg_unitsteps());
    }
}

/// A homing key names that axis's homing property of that name:
/// `a.<x|y|z>.home.origin` the origin, `.phase` the phase, `.side` the side
/// and `.travel` the travel.
pub proof fn law_home_routes(l: u8)
    requires
        l == 0x78u8 || l == 0x79u8 || l == 0x7au8,
    ensures
        route_of(home_text(l, seq![0x6fu8, 0x72u8, 0x69u8, 0x67u8, 0x69u8, 0x6eu8])) == Ok::<Route, Error>(
            Route::AxisHome(if l == 0x78u8 { Axis::X } else if l == 0x79u8 { Axis::Y } else { Axis::Z }, HomeProp::Origin),
        ),
        route_of(home_text(l, seq![0x70u8, 0x68u8, 0x61u8, 0x73u8, 0x65u8])) == Ok::<Route, Error>(
            Route::AxisHome(if l == 0x78u8 { Axis::X } else if l == 0x79u8 { Axis::Y } else { Axis::Z }, HomeProp::Phase),
        ),
        route_of(home_text(l, seq![0x73u8, 0x69u8, 0x64u8, 0x65u8])) == Ok::<Route, Error>(
            Route::AxisHome(if l == 0x78u8 { Axis::X } else if l == 0x79u8 { Axis::Y } else { Axis::Z }, HomeProp::Side),
        ),
        route_of(home_text(l, seq![0x74u8, 0x72u8, 0x61u8, 0x76u8, 0x65u8, 0x6cu8])) == Ok::<Route, Error>(
            Route::AxisHome(if l == 0x78u8 { Axis::X } else if l == 0x79u8 { Axis::Y } else { Axis::Z }, HomeProp::Travel),
        ),
{
    let lw = seq![l];
    assert(lw == seg_x() || lw == seg_y() || lw == seg_z());
    assert(seq![0x6fu8, 0x72u8, 0x69u8, 0x67u8, 0x69u8, 0x6eu8] =~= seg_origin());
    assert(seq![0x70u8, 0x68u8, 0x61u8, 0x73u8, 0x65u8] =~= seg_phase());
    assert(seq![0x73u8, 0x69u8, 0x64u8, 0x65u8] =~= seg_side());
    assert(seq![0x74u8, 0x72u8, 0x61u8, 0x76u8, 0x65u8, 0x6cu8] =~= seg_travel());
    assert(home_text(l, seq![0x6fu8, 0x72u8, 0x69u8, 0x67u8, 0x69u8, 0x6eu8]) =~= seg_a().push(0x2eu8) + lw + seq![0x2eu8] + seg_home() + seq![0x2eu8] + seg_origin());
    assert(home_text(l, seq![0x70u8, 0x68u8, 0x61u8, 0x73u8, 0x65u8]) =~= seg_a().push(0x2eu8) + lw + seq![0x2eu8] + seg_home() + seq![0x2eu8] + seg_phase());
    assert(home_text(l, seq![0x73u8, 0x69u8, 0x64u8, 0x65u8]) =~= seg_a().push(0x2eu8) + lw + seq![0x2eu8] + seg_home() + seq![0x2eu8] + seg_side());
    assert(home_text(l, seq![0x74u8, 0x72u8, 0x61u8, 0x76u8, 0x65u8, 0x6cu8]) =~= seg_a().push(0x2eu8) + lw + seq![0x2eu8] + seg_home() + seq![0x2eu8] + seg_travel());
    lemma_segments4(seg_a(), lw, seg_home(), seg_origin());
    lemma_segments4(seg_a(), lw, seg_home(), seg_phase());
    lemma_segments4(seg_a(), lw, seg_home(), seg_side());
    lemma_segments4(seg_a(), lw, seg_home(), seg_travel());
}

/// An offset key `cs.<g|w>.pos.<x|y|z>` names that system's offset on that axis.
pub proof fn law_offset_routes(c: u8, l: u8)
    requires
        c == 0x67u8 || c == 0x77u8,
        l == 0x78u8 || l == 0x79u8 || l == 0x7au8,
    ensures
        route_of(cs_text(c, l)) == Ok::<Route, Error>(
            Route::CoordOffset(
                if c == 0x67u8 { CoordSys::Grinder } else { CoordSys::Work },
                if l == 0x78u8 { Axis::X } else if l == 0x79u8 { Axis::Y } else { Axis::Z },
            ),
        ),
{
    let cw = seq![c];
    let lw = seq![l];
    assert(lw == seg_x() || lw == seg_y() || lw == seg_z());
    assert(cw == seg_g() || cw == seg_w());
    assert(cs_text(c, l) =~= seg_cs().push(0x2eu8) + cw + seq![0x2eu8] + seg_pos() + seq![0x2eu8] + lw);
    lemma_segments4(seg_cs(), cw, seg_pos(), lw);
}

/// A motor key `m.<0..6>.<prop>` names that motor's property of that name.
pub proof fn law_motor_routes(m: int)
    requires
        0 <= m < N_MOTORS,
    ensures
        route_of(motor_text((0x30 + m) as u8, seq![0x63u8, 0x75u8, 0x72u8, 0x72u8, 0x65u8, 0x6eu8, 0x74u8])) == Ok::<Route, Error>(Route::MotorCurrent(m as usize)),
        route_of(motor_text((0x30 + m) as u8, seq![0x6du8, 0x69u8, 0x63u8, 0x72u8, 0x6fu8, 0x73u8, 0x74u8, 0x65u8, 0x70u8])) == Ok::<Route, Error>(Route::MotorMicrostep(m as usize)),
        route_of(motor_text((0x30 + m) as u8, seq![0x74u8, 0x68u8, 0x72u8, 0x65u8, 0x73u8, 0x68u8])) == Ok::<Route, Error>(Route::MotorThresh(m as usize)),
        route_of(motor_text((0x30 + m) as u8, seq![0x75u8, 0x6eu8, 0x69u8, 0x74u8, 0x73u8, 0x74u8, 0x65u8, 0x70u8, 0x73u8])) == Ok::<Route, Error>(Route::MotorUnitsteps(m as usize)),
{
    let d = seq![(0x30 + m) as u8];
    assert(unsigned_body(d) =~= d);
    assert(digits_value(d) == m) by {
        assert(d.drop_last() =~= Seq::<u8>::empty());
        assert(digits_value(d.drop_last()) == 0);
        assert(d.last() == (0x30 + m) as u8);
        assert(((0x30 + m) as u8) - 0x30u8 == m);
    }
    lemma_segments_word(seg_m());
    lemma_segments_extend(seg_m(), d);
    let md = seg_m().push(0x2eu8) + d;
    assert(seq![0x63u8, 0x75u8, 0x72u8, 0x72u8, 0x65u8, 0x6eu8, 0x74u8] =~= seg_current());
    assert(seq![0x6du8, 0x69u8, 0x63u8, 0x72u8, 0x6fu8, 0x73u8, 0x74u8, 0x65u8, 0x70u8] =~= seg_microstep());
    assert(seq![0x74u8, 0x68u8, 0x72u8, 0x65u8, 0x73u8, 0x68u8] =~= seg_thresh());
    assert(seq![0x75u8, 0x6eu8, 0x69u8, 0x74u8, 0x73u8, 0x74u8, 0x65u8, 0x70u8, 0x73u8] =~= seg_unitsteps());
    lemma_segments_extend(md, seg_current());
    lemma_segments_extend(md, seg_microstep());
    lemma_segments_extend(md, seg_thresh());
    lemma_segments_extend(md, seg_unitsteps());
    assert(motor_text((0x30 + m) as u8, seg_current()) =~= md.push(0x2eu8) + seg_current());
    assert(motor_text((0x30 + m) as u8, seg_microstep()) =~= md.push(0x2eu8) + seg_microstep());
    assert(motor_text((0x30 + m) as u8, seg_thresh()) =~= md.push(0x2eu8) + seg_thresh());
    assert(motor_text((0x30 + m) as u8, seg_unitsteps()) =~= md.push(0x2eu8) + seg_unitsteps());
    assert(segments(md.push(0x2eu8) + seg_current()) =~= seq![seg_m(), d, seg_current()]);
    assert(segments(md.push(0x2eu8) + seg_microstep()) =~= seq![seg_m(), d, seg_microstep()]);
    assert(segments(md.push(0x2eu8) + seg_thresh()) =~= seq![seg_m(), d, seg_thresh()]);
    assert(segments(md.push(0x2eu8) + seg_unitsteps()) =~= seq![seg_m(), d, seg_unitsteps()]);
}

} // verus!
