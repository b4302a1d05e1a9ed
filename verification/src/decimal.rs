//! Decimal words as the host writes numbers (`12`, `-0.5`, `.25`, `3e-2`,
//! `+1E+3`), read the way `str::parse::<f32>` reads them, and where their exact
//! value falls against the bounds of binary32 rounding: all on the digits, in
//! exact integer arithmetic.
//!
//! A word is an optional sign, a mantissa of digits with at most one decimal
//! point and at least one digit, and an optional exponent (`e` or `E`, an
//! optional sign, at least one digit). Its magnitude is
//! `significand · 10^scale`, where the significand is the mantissa's digits
//! read as one integer and the scale is the written exponent less the number
//! of digits after the point.

use vstd::prelude::*;

use crate::bytes::copy_range;
use crate::gcode::{digits_value, is_digit};
use vstd::slice::slice_subrange;

verus! {

// ---------------------------------------------------------------------------
// Powers of ten and digit strings
// ---------------------------------------------------------------------------

pub open spec fn pow10(n: nat) -> nat
    decreases n,
{
    if n == 0 {
        1
    } else {
        10 * pow10((n - 1) as nat)
    }
}

/// Every byte is a decimal digit (the empty string included).
pub open spec fn all_digit(s: Seq<u8>) -> bool {
    forall|i: int| 0 <= i < s.len() ==> is_digit(#[trigger] s[i])
}

/// `n` zero digits.
pub open spec fn zeros(n: nat) -> Seq<u8> {
    Seq::new(n, |i: int| 0x30u8)
}

/// No zero digit in front (the empty string has none).
pub open spec fn no_leading_zero(s: Seq<u8>) -> bool {
    s.len() == 0 || s[0] != 0x30u8
}

proof fn lemma_pow10_pos(n: nat)
    ensures
        pow10(n) >= 1,
    decreases n,
{
    if n > 0 {
        lemma_pow10_pos((n - 1) as nat);
    }
}

proof fn lemma_pow10_mono(a: nat, b: nat)
    requires
        a <= b,
    ensures
        pow10(a) <= pow10(b),
    decreases b,
{
    if a < b {
        lemma_pow10_mono(a, (b - 1) as nat);
    }
}

proof fn lemma_all_digit_concat(s: Seq<u8>, t: Seq<u8>)
    requires
        all_digit(s),
        all_digit(t),
    ensures
        all_digit(s + t),
{
    assert forall|i: int| 0 <= i < (s + t).len() implies is_digit(#[trigger] (s + t)[i]) by {
        if i < s.len() {
            assert((s + t)[i] == s[i]);
        } else {
            assert((s + t)[i] == t[i - s.len()]);
        }
    }
}

proof fn lemma_dv_concat(s: Seq<u8>, t: Seq<u8>)
    ensures
        digits_value(s + t) == digits_value(s) * pow10(t.len()) + digits_value(t),
    decreases t.len(),
{
    if t.len() == 0 {
        assert(s + t =~= s);
        assert(digits_value(t) == 0);
        assert(pow10(t.len()) == 1);
        assert(digits_value(s) * 1 == digits_value(s));
    } else {
        let t1 = t.drop_last();
        lemma_dv_concat(s, t1);
        assert((s + t).drop_last() =~= s + t1);
        assert((s + t).last() == t.last());
        assert(pow10(t.len()) == 10 * pow10(t1.len()));
        assert(digits_value(t) == 10 * digits_value(t1) + (t.last() - 0x30u8) as nat);
        assert(digits_value(s + t) == 10 * digits_value(s + t1) + (t.last() - 0x30u8) as nat);
        let a = digits_value(s);
        let p = pow10(t1.len());
        let v = digits_value(t1);
        assert(10 * (a * p + v) == a * (10 * p) + 10 * v) by (nonlinear_arith);
        assert(digits_value(s + t1) == a * p + v);
    }
}

proof fn lemma_dv_bound(s: Seq<u8>)
    requires
        all_digit(s),
    ensures
        digits_value(s) < pow10(s.len()),
    decreases s.len(),
{
    if s.len() > 0 {
        let s1 = s.drop_last();
        assert forall|i: int| 0 <= i < s1.len() implies is_digit(#[trigger] s1[i]) by {
            assert(s1[i] == s[i]);
        }
        lemma_dv_bound(s1);
        assert(is_digit(s[s.len() - 1]));
    }
}

proof fn lemma_dv_single(b: u8)
    ensures
        digits_value(seq![b]) == (b - 0x30u8) as nat,
{
    assert(seq![b].drop_last() =~= Seq::<u8>::empty());
    assert(digits_value(Seq::<u8>::empty()) == 0);
    assert(seq![b].last() == b);
}

proof fn lemma_dv_lower(s: Seq<u8>)
    requires
        all_digit(s),
        s.len() > 0,
        s[0] != 0x30u8,
    ensures
        digits_value(s) >= pow10((s.len() - 1) as nat),
{
    let h = seq![s[0]];
    let r = s.skip(1);
    assert(s =~= h + r);
    lemma_dv_concat(h, r);
    lemma_dv_single(s[0]);
    assert(is_digit(s[0]));
    let a = digits_value(h);
    let p = pow10(r.len());
    assert(a * p >= p) by (nonlinear_arith)
        requires
            a >= 1,
    ;
}

proof fn lemma_dv_zeros(n: nat)
    ensures
        digits_value(zeros(n)) == 0,
    decreases n,
{
    if n > 0 {
        assert(zeros(n).drop_last() =~= zeros((n - 1) as nat));
        lemma_dv_zeros((n - 1) as nat);
    }
}

/// Trailing zeros multiply by a power of ten.
proof fn lemma_dv_pad(s: Seq<u8>, n: nat)
    ensures
        digits_value(s + zeros(n)) == digits_value(s) * pow10(n),
{
    lemma_dv_concat(s, zeros(n));
    lemma_dv_zeros(n);
}

/// Leading zeros change nothing.
proof fn lemma_dv_strip(s: Seq<u8>, z: nat)
    requires
        z <= s.len(),
        forall|k: int| 0 <= k < z ==> #[trigger] s[k] == 0x30u8,
    ensures
        digits_value(s) == digits_value(s.skip(z as int)),
{
    assert(s =~= zeros(z) + s.skip(z as int));
    lemma_dv_concat(zeros(z), s.skip(z as int));
    lemma_dv_zeros(z);
}

/// Between digit strings of one length, the first differing digit decides.
proof fn lemma_dv_lex(s: Seq<u8>, t: Seq<u8>, k: int)
    requires
        all_digit(s),
        all_digit(t),
        s.len() == t.len(),
        0 <= k < s.len(),
        s.take(k) == t.take(k),
        s[k] < t[k],
    ensures
        digits_value(s) < digits_value(t),
{
    let p = s.take(k);
    let rs = s.skip(k + 1);
    let rt = t.skip(k + 1);
    assert(s =~= (p + seq![s[k]]) + rs);
    assert(t =~= (p + seq![t[k]]) + rt);
    lemma_dv_concat(p + seq![s[k]], rs);
    lemma_dv_concat(p + seq![t[k]], rt);
    lemma_dv_concat(p, seq![s[k]]);
    lemma_dv_concat(p, seq![t[k]]);
    lemma_dv_single(s[k]);
    lemma_dv_single(t[k]);
    assert(is_digit(s[k]) && is_digit(t[k]));
    assert forall|i: int| 0 <= i < rs.len() implies is_digit(#[trigger] rs[i]) by {
        assert(rs[i] == s[i + k + 1]);
    }
    lemma_dv_bound(rs);
    assert(pow10(0) == 1);
    assert(pow10(1) == 10);
    let q = digits_value(p);
    let a = (s[k] - 0x30u8) as nat;
    let b = (t[k] - 0x30u8) as nat;
    let pp = pow10(rs.len());
    let vs = digits_value(rs);
    let vt = digits_value(rt);
    assert((q * 10 + a) * pp + vs < (q * 10 + b) * pp + vt) by (nonlinear_arith)
        requires
            a + 1 <= b,
            vs < pp,
            vt >= 0,
    ;
}

// ---------------------------------------------------------------------------
// Comparing m · 10^j with c
// ---------------------------------------------------------------------------

/// -1, 0 or 1 as `a` is below, at or above `b`.
pub open spec fn order(a: nat, b: nat) -> int {
    if a < b {
        -1
    } else if a == b {
        0
    } else {
        1
    }
}

/// -1, 0 or 1 as `m · 10^j` is below, at or above `c`.
pub open spec fn scaled_order(m: nat, j: int, c: nat) -> int {
    if j >= 0 {
        order(m * pow10(j as nat), c)
    } else {
        order(m, c * pow10((-j) as nat))
    }
}

/// Far enough out, the order no longer depends on `j`.
proof fn lemma_scaled_far(m: Seq<u8>, c: Seq<u8>, j: int)
    requires
        all_digit(m),
        all_digit(c),
        m.len() >= 1,
        m[0] != 0x30u8,
        c.len() >= 1,
        c[0] != 0x30u8,
        j >= c.len() || j <= -m.len(),
    ensures
        scaled_order(digits_value(m), j, digits_value(c)) == (if j >= c.len() {
            1int
        } else {
            -1int
        }),
{
    lemma_dv_bound(m);
    lemma_dv_bound(c);
    lemma_dv_lower(m);
    lemma_dv_lower(c);
    let vm = digits_value(m);
    let vc = digits_value(c);
    if j >= c.len() {
        lemma_pow10_mono(c.len(), j as nat);
        lemma_pow10_pos((m.len() - 1) as nat);
        let p = pow10(j as nat);
        assert(vm * p >= p) by (nonlinear_arith)
            requires
                vm >= 1,
        ;
    } else {
        lemma_pow10_mono(m.len(), (-j) as nat);
        lemma_pow10_pos((c.len() - 1) as nat);
        let p = pow10((-j) as nat);
        assert(vc * p >= p) by (nonlinear_arith)
            requires
                vc >= 1,
        ;
    }
}

/// Zero is below every positive bound.
proof fn lemma_scaled_zero(j: int, c: nat)
    requires
        c >= 1,
    ensures
        scaled_order(0, j, c) == -1,
{
    if j < 0 {
        lemma_pow10_pos((-j) as nat);
        let p = pow10((-j) as nat);
        assert(c * p >= 1) by (nonlinear_arith)
            requires
                c >= 1,
                p >= 1,
        ;
    }
}

// ---------------------------------------------------------------------------
// The grammar of a decimal word
// ---------------------------------------------------------------------------

pub open spec fn is_sign(b: u8) -> bool {
    b == 0x2bu8 || b == 0x2du8
}

/// Position of the first `a` or `b` in `s` at or after `i`; `s.len()` if none.
pub open spec fn first_of(s: Seq<u8>, i: int, a: u8, b: u8) -> int
    decreases s.len() - i,
{
    if i < 0 || i >= s.len() {
        s.len() as int
    } else if s[i] == a || s[i] == b {
        i
    } else {
        first_of(s, i + 1, a, b)
    }
}

/// `w` without its leading sign, if it has one.
pub open spec fn unsigned(w: Seq<u8>) -> Seq<u8> {
    if w.len() > 0 && is_sign(w[0]) {
        w.skip(1)
    } else {
        w
    }
}

/// `w` starts with `-`.
pub open spec fn is_minus(w: Seq<u8>) -> bool {
    w.len() > 0 && w[0] == 0x2du8
}

/// What comes before the first `e` or `E` of the unsigned word.
pub open spec fn mantissa(w: Seq<u8>) -> Seq<u8> {
    let b = unsigned(w);
    b.take(first_of(b, 0, 0x65u8, 0x45u8))
}

/// What comes after the first `e` or `E`, if there is one.
pub open spec fn exponent_field(w: Seq<u8>) -> Option<Seq<u8>> {
    let b = unsigned(w);
    let i = first_of(b, 0, 0x65u8, 0x45u8);
    if i < b.len() {
        Some(b.skip(i + 1))
    } else {
        None
    }
}

/// The mantissa up to its first `.`.
pub open spec fn int_digits(w: Seq<u8>) -> Seq<u8> {
    let m = mantissa(w);
    m.take(first_of(m, 0, 0x2eu8, 0x2eu8))
}

/// The mantissa after its first `.` (empty without one).
pub open spec fn frac_digits(w: Seq<u8>) -> Seq<u8> {
    let m = mantissa(w);
    let i = first_of(m, 0, 0x2eu8, 0x2eu8);
    if i < m.len() {
        m.skip(i + 1)
    } else {
        Seq::empty()
    }
}

/// A decimal word: digits on both sides of the point (one side may be
/// empty, not both), and an exponent field, if any, of an optional sign and
/// at least one digit.
pub open spec fn is_decimal(w: Seq<u8>) -> bool {
    &&& all_digit(int_digits(w))
    &&& all_digit(frac_digits(w))
    &&& int_digits(w).len() + frac_digits(w).len() >= 1
    &&& match exponent_field(w) {
        None => true,
        Some(x) => unsigned(x).len() >= 1 && all_digit(unsigned(x)),
    }
}

/// The exponent written in the word (0 without one).
pub open spec fn written_exponent(w: Seq<u8>) -> int {
    match exponent_field(w) {
        None => 0,
        Some(x) => if is_minus(x) {
            -digits_value(unsigned(x))
        } else {
            digits_value(unsigned(x)) as int
        },
    }
}

/// All digits of the mantissa, read as one integer.
pub open spec fn significand(w: Seq<u8>) -> nat {
    digits_value(int_digits(w) + frac_digits(w))
}

/// The magnitude of `w` is `significand(w) · 10^scale(w)`.
pub open spec fn scale(w: Seq<u8>) -> int {
    written_exponent(w) - frac_digits(w).len()
}

/// -1, 0 or 1 as the magnitude of `w` is below, at or above `c · 10^-d`.
pub open spec fn magnitude_vs(w: Seq<u8>, c: nat, d: nat) -> int {
    scaled_order(significand(w), scale(w) + d, c)
}

// ---------------------------------------------------------------------------
// Bounds of binary32 rounding (round to nearest, ties to even)
// ---------------------------------------------------------------------------

/// `2^128 - 2^103`: halfway between the largest finite binary32 value and
/// `2^128`. A magnitude at or above it rounds to infinity.
pub open spec fn overflow_bound() -> nat {
    340282356779733661637539395458142568448nat
}

/// `(1 + 2^-24) · 10^24`: `1 + 2^-24` is halfway between 1 and the next
/// binary32 value; a value up to it rounds to at most 1.
pub open spec fn one_bound() -> nat {
    1000000059604644775390625nat
}

/// `2^-150 · 10^150`: `2^-150` is half the least positive binary32 value; a
/// magnitude up to it rounds to zero.
pub open spec fn zero_bound() -> nat {
    700649232162408535461864791644958065640130970938257885878534141944895541342930300743319094181060791015625nat
}

/// The word reads as a finite binary32 value.
pub open spec fn finite_value(w: Seq<u8>) -> bool {
    is_decimal(w) && magnitude_vs(w, overflow_bound(), 0) < 0
}

/// The word reads as a binary32 value in `[0, 1]` (`-0` included).
pub open spec fn unit_value(w: Seq<u8>) -> bool {
    &&& finite_value(w)
    &&& if is_minus(w) {
        magnitude_vs(w, zero_bound(), 150) <= 0
    } else {
        magnitude_vs(w, one_bound(), 24) <= 0
    }
}

/// The word reads as a finite binary32 value above 0.
pub open spec fn positive_value(w: Seq<u8>) -> bool {
    &&& finite_value(w)
    &&& !is_minus(w)
    &&& magnitude_vs(w, zero_bound(), 150) > 0
}

/// What appending one digit does to a digit string.
proof fn lemma_push_facts()
    ensures
        forall|s: Seq<u8>, a: u8| #[trigger]
            digits_value(s.push(a)) == 10 * digits_value(s) + (a - 0x30u8) as nat,
        forall|s: Seq<u8>, a: u8| all_digit(s) && is_digit(a) ==> #[trigger] all_digit(s.push(a)),
{
    assert forall|s: Seq<u8>, a: u8| #[trigger]
        digits_value(s.push(a)) == 10 * digits_value(s) + (a - 0x30u8) as nat by {
        assert(s.push(a).drop_last() =~= s);
    }
    assert forall|s: Seq<u8>, a: u8| all_digit(s) && is_digit(a) implies #[trigger] all_digit(
        s.push(a),
    ) by {
        assert forall|i: int| 0 <= i < s.push(a).len() implies is_digit(#[trigger] s.push(a)[i]) by {
            if i < s.len() {
                assert(s.push(a)[i] == s[i]);
            }
        }
    }
}

// ---------------------------------------------------------------------------
// Reading a word
// ---------------------------------------------------------------------------

/// `2^70`: an exponent at or beyond it is counted as `2^70`.
spec fn exp_cap() -> nat {
    0x40_0000_0000_0000_0000nat
}

/// `j` stands for the scale `s`: equal to it, or both far past any digit
/// count on the same side.
spec fn stands_for(j: int, s: int) -> bool {
    &&& -0x80_0000_0000_0000_0000 <= j <= 0x80_0000_0000_0000_0000
    &&& (j == s || (j >= 0x20_0000_0000_0000_0000 && s >= j) || (j <= -0x20_0000_0000_0000_0000
        && s <= j))
}

fn is_digit_byte(b: u8) -> (r: bool)
    ensures
        r == is_digit(b),
{
    0x30u8 <= b && b <= 0x39u8
}

fn all_digit_exec(s: &[u8]) -> (r: bool)
    ensures
        r == all_digit(s@),
{
    let mut i: usize = 0;
    while i < s.len()
        invariant
            i <= s@.len(),
            forall|k: int| 0 <= k < i ==> is_digit(#[trigger] s@[k]),
        decreases s@.len() - i,
    {
        if !is_digit_byte(s[i]) {
            return false;
        }
        i = i + 1;
    }
    true
}

fn first_of_exec(s: &[u8], a: u8, b: u8) -> (r: usize)
    ensures
        r == first_of(s@, 0, a, b),
        r <= s@.len(),
{
    let mut i: usize = 0;
    while i < s.len() && s[i] != a && s[i] != b
        invariant
            i <= s@.len(),
            first_of(s@, 0, a, b) == first_of(s@, i as int, a, b),
        decreases s@.len() - i,
    {
        i = i + 1;
    }
    i
}

/// The value of a digit run, or `2^70` if it is that or more.
fn capped_value(s: &[u8]) -> (v: u128)
    requires
        all_digit(s@),
    ensures
        v == (if digits_value(s@) < exp_cap() {
            digits_value(s@)
        } else {
            exp_cap()
        }),
{
    let cap: u128 = 0x40_0000_0000_0000_0000;
    let mut v: u128 = 0;
    let mut i: usize = 0;
    assert(s@.take(0) =~= Seq::<u8>::empty());
    while i < s.len()
        invariant
            i <= s@.len(),
            all_digit(s@),
            cap == exp_cap(),
            v == (if digits_value(s@.take(i as int)) < exp_cap() {
                digits_value(s@.take(i as int))
            } else {
                exp_cap()
            }),
        decreases s@.len() - i,
    {
        let d = s[i];
        assert(is_digit(s@[i as int]));
        assert(s@.take(i + 1).drop_last() =~= s@.take(i as int));
        assert(s@.take(i + 1).last() == d);
        if v < cap {
            let nv: u128 = v * 10 + (d - 0x30u8) as u128;
            if nv < cap {
                v = nv;
            } else {
                v = cap;
            }
        }
        i = i + 1;
    }
    assert(s@.take(s@.len() as int) =~= s@);
    v
}

fn concat(a: &[u8], b: &[u8]) -> (r: Vec<u8>)
    ensures
        r@ == a@ + b@,
{
    let mut r = copy_range(a, 0, a.len());
    assert(a@.subrange(0, a@.len() as int) =~= a@);
    let mut i: usize = 0;
    while i < b.len()
        invariant
            i <= b@.len(),
            r@ == a@ + b@.take(i as int),
        decreases b@.len() - i,
    {
        r.push(b[i]);
        assert(a@ + b@.take(i + 1) =~= (a@ + b@.take(i as int)).push(b@[i as int]));
        i = i + 1;
    }
    assert(b@.take(b@.len() as int) =~= b@);
    r
}

fn leading_zeros(s: &[u8]) -> (z: usize)
    ensures
        z <= s@.len(),
        forall|k: int| 0 <= k < z ==> #[trigger] s@[k] == 0x30u8,
        z == s@.len() || s@[z as int] != 0x30u8,
{
    let mut z: usize = 0;
    while z < s.len() && s[z] == 0x30u8
        invariant
            z <= s@.len(),
            forall|k: int| 0 <= k < z ==> #[trigger] s@[k] == 0x30u8,
        decreases s@.len() - z,
    {
        z = z + 1;
    }
    z
}

/// -1, 0 or 1 as `m · 10^j` is below, at or above `c`.
fn scaled_order_exec(m: &[u8], j: i128, c: &[u8]) -> (r: i8)
    requires
        all_digit(m@),
        no_leading_zero(m@),
        all_digit(c@),
        c@.len() >= 1,
        c@[0] != 0x30u8,
        -0x100_0000_0000_0000_0000 <= j <= 0x100_0000_0000_0000_0000,
    ensures
        r == scaled_order(digits_value(m@), j as int, digits_value(c@)),
{
    let ghost pa: nat = if j > 0 {
        j as nat
    } else {
        0
    };
    let ghost pb: nat = if j < 0 {
        (-j) as nat
    } else {
        0
    };
    let ghost sa = m@ + zeros(pa);
    let ghost sb = c@ + zeros(pb);
    proof {
        lemma_dv_pad(m@, pa);
        lemma_dv_pad(c@, pb);
        lemma_all_digit_concat(m@, zeros(pa));
        lemma_all_digit_concat(c@, zeros(pb));
        lemma_dv_lower(c@);
        lemma_pow10_pos((c@.len() - 1) as nat);
        assert(pow10(0) == 1);
        assert(scaled_order(digits_value(m@), j as int, digits_value(c@)) == order(
            digits_value(sa),
            digits_value(sb),
        ));
    }
    if m.len() == 0 {
        proof {
            lemma_scaled_zero(j as int, digits_value(c@));
        }
        return -1;
    }
    let la: i128 = m.len() as i128 + (if j > 0 {
        j
    } else {
        0
    });
    let lb: i128 = c.len() as i128 + (if j < 0 {
        -j
    } else {
        0
    });
    if la < lb {
        proof {
            lemma_dv_bound(sa);
            lemma_dv_lower(sb);
            lemma_pow10_mono(la as nat, (lb - 1) as nat);
        }
        return -1;
    }
    if la > lb {
        proof {
            lemma_dv_bound(sb);
            lemma_dv_lower(sa);
            lemma_pow10_mono(lb as nat, (la - 1) as nat);
        }
        return 1;
    }
    let n: usize = if j >= 0 {
        c.len()
    } else {
        m.len()
    };
    assert(sa.len() == n && sb.len() == n);
    let mut i: usize = 0;
    while i < n
        invariant
            i <= n,
            sa.len() == n,
            sb.len() == n,
            sa == m@ + zeros(pa),
            sb == c@ + zeros(pb),
            all_digit(sa),
            all_digit(sb),
            digits_value(sa) == digits_value(m@) * pow10(pa),
            digits_value(sb) == digits_value(c@) * pow10(pb),
            scaled_order(digits_value(m@), j as int, digits_value(c@)) == order(
                digits_value(sa),
                digits_value(sb),
            ),
            forall|k: int| 0 <= k < i ==> sa[k] == sb[k],
        decreases n - i,
    {
        let x: u8 = if i < m.len() {
            m[i]
        } else {
            0x30u8
        };
        let y: u8 = if i < c.len() {
            c[i]
        } else {
            0x30u8
        };
        assert(x == sa[i as int]);
        assert(y == sb[i as int]);
        if x != y {
            proof {
                assert(sa.take(i as int) =~= sb.take(i as int));
                if x < y {
                    lemma_dv_lex(sa, sb, i as int);
                } else {
                    lemma_dv_lex(sb, sa, i as int);
                }
            }
            return if x < y {
                -1
            } else {
                1
            };
        }
        i = i + 1;
    }
    assert(sa =~= sb);
    0
}

/// The exponent a field writes, with its magnitude capped at `2^70`.
spec fn capped_exponent(x: Seq<u8>) -> int {
    let v = digits_value(unsigned(x));
    let c = if v < exp_cap() {
        v
    } else {
        exp_cap()
    };
    if is_minus(x) {
        -c
    } else {
        c as int
    }
}

/// The capped exponent of an exponent field; `None` unless the field is an
/// optional sign and at least one digit.
fn exponent_value(x: &[u8]) -> (r: Option<i128>)
    ensures
        r.is_some() == (unsigned(x@).len() >= 1 && all_digit(unsigned(x@))),
        r matches Some(e) ==> e == capped_exponent(x@),
{
    let xs: usize = if x.len() > 0 && (x[0] == 0x2bu8 || x[0] == 0x2du8) {
        1
    } else {
        0
    };
    let xb = slice_subrange(x, xs, x.len());
    assert(xb@ =~= unsigned(x@));
    if xb.len() == 0 || !all_digit_exec(xb) {
        return None;
    }
    let v = capped_value(xb);
    if x[0] == 0x2du8 {
        Some(-(v as i128))
    } else {
        Some(v as i128)
    }
}

/// The digits of `ip` then `fp`, without leading zeros.
fn significand_digits(ip: &[u8], fp: &[u8]) -> (m: Vec<u8>)
    requires
        all_digit(ip@),
        all_digit(fp@),
    ensures
        all_digit(m@),
        no_leading_zero(m@),
        digits_value(m@) == digits_value(ip@ + fp@),
{
    let digs = concat(ip, fp);
    let z = leading_zeros(digs.as_slice());
    let m = copy_range(digs.as_slice(), z, digs.len());
    proof {
        lemma_all_digit_concat(ip@, fp@);
        lemma_dv_strip(digs@, z as nat);
        assert(m@ =~= digs@.skip(z as int));
        assert forall|k: int| 0 <= k < m@.len() implies is_digit(#[trigger] m@[k]) by {
            assert(m@[k] == digs@[k + z]);
        }
    }
    m
}

/// The capped exponent less a digit count stands for the scale.
proof fn lemma_capped_scale(x: Option<Seq<u8>>, e: int, f: nat)
    requires
        f <= usize::MAX,
        e == (match x {
            None => 0,
            Some(x) => capped_exponent(x),
        }),
    ensures
        stands_for(
            e - f,
            (match x {
                None => 0,
                Some(x) => if is_minus(x) {
                    -digits_value(unsigned(x))
                } else {
                    digits_value(unsigned(x)) as int
                },
            }) - f,
        ),
{
    assert(0x20_0000_0000_0000_0000 + usize::MAX < 0x40_0000_0000_0000_0000);
}

/// The significand's digits without leading zeros, and the scale (standing
/// for it when the written exponent is out of all proportion), of a decimal
/// word; `None` for any other word.
fn decimal_parts(w: &[u8]) -> (r: Option<(Vec<u8>, i128)>)
    ensures
        r.is_some() == is_decimal(w@),
        r matches Some((m, j)) ==> {
            &&& all_digit(m@)
            &&& no_leading_zero(m@)
            &&& digits_value(m@) == significand(w@)
            &&& stands_for(j as int, scale(w@))
        },
{
    let sl: usize = if w.len() > 0 && (w[0] == 0x2bu8 || w[0] == 0x2du8) {
        1
    } else {
        0
    };
    let body = slice_subrange(w, sl, w.len());
    assert(body@ =~= unsigned(w@));
    let ie = first_of_exec(body, 0x65u8, 0x45u8);
    let mant = slice_subrange(body, 0, ie);
    assert(mant@ =~= mantissa(w@));
    let id = first_of_exec(mant, 0x2eu8, 0x2eu8);
    let ip = slice_subrange(mant, 0, id);
    assert(ip@ =~= int_digits(w@));
    let fp = if id < mant.len() {
        slice_subrange(mant, id + 1, mant.len())
    } else {
        slice_subrange(mant, 0, 0)
    };
    assert(fp@ =~= frac_digits(w@));
    if !all_digit_exec(ip) || !all_digit_exec(fp) || (ip.len() == 0 && fp.len() == 0) {
        return None;
    }
    let e: i128 = if ie < body.len() {
        let x = slice_subrange(body, ie + 1, body.len());
        assert(exponent_field(w@) == Some(x@));
        match exponent_value(x) {
            Some(e) => e,
            None => {
                return None;
            },
        }
    } else {
        assert(exponent_field(w@) is None);
        0
    };
    let m = significand_digits(ip, fp);
    proof {
        lemma_capped_scale(exponent_field(w@), e as int, fp@.len());
    }
    let j: i128 = e - fp.len() as i128;
    Some((m, j))
}

/// -1, 0 or 1 as `m · 10^(s + d)` is below, at or above `c`, where `j`
/// stands for `s`.
fn order_vs(m: &[u8], j: i128, Ghost(s): Ghost<int>, c: &[u8], d: i128) -> (r: i8)
    requires
        all_digit(m@),
        no_leading_zero(m@),
        stands_for(j as int, s),
        all_digit(c@),
        1 <= c@.len() <= 200,
        c@[0] != 0x30u8,
        0 <= d <= 200,
    ensures
        r == scaled_order(digits_value(m@), s + d, digits_value(c@)),
{
    let ml = m.len();
    let r = scaled_order_exec(m, j + d, c);
    proof {
        if j != s {
            assert(ml == m@.len() && ml <= usize::MAX);
            assert(0x20_0000_0000_0000_0000 > usize::MAX + 200);
            if m@.len() == 0 {
                assert(digits_value(m@) == 0);
                lemma_dv_lower(c@);
                lemma_pow10_pos((c@.len() - 1) as nat);
                lemma_scaled_zero(j + d, digits_value(c@));
                lemma_scaled_zero(s + d, digits_value(c@));
            } else {
                lemma_scaled_far(m@, c@, j + d);
                lemma_scaled_far(m@, c@, s + d);
            }
        }
    }
    r
}

/// The decimal digits of [`overflow_bound`].
fn digits_overflow() -> (c: Vec<u8>)
    ensures
        all_digit(c@),
        c@.len() == 39,
        c@[0] != 0x30u8,
        digits_value(c@) == overflow_bound(),
{
    proof {
        lemma_push_facts();
    }
    // Digit by digit; the value so far is checked every ten digits.
    let mut c: Vec<u8> = Vec::new();
    c.push(0x33u8);
    c.push(0x34u8);
    c.push(0x30u8);
    c.push(0x32u8);
    c.push(0x38u8);
    c.push(0x32u8);
    c.push(0x33u8);
    c.push(0x35u8);
    c.push(0x36u8);
    c.push(0x37u8);
    assert(c@.len() == 10 && c@[0] == 0x33u8 && all_digit(c@) && digits_value(c@) == 3402823567nat);
    c.push(0x37u8);
    c.push(0x39u8);
    c.push(0x37u8);
    c.push(0x33u8);
    c.push(0x33u8);
    c.push(0x36u8);
    c.push(0x36u8);
    c.push(0x31u8);
    c.push(0x36u8);
    c.push(0x33u8);
    assert(c@.len() == 20 && c@[0] == 0x33u8 && all_digit(c@) && digits_value(c@) == 34028235677973366163nat);
    c.push(0x37u8);
    c.push(0x35u8);
    c.push(0x33u8);
    c.push(0x39u8);
    c.push(0x33u8);
    c.push(0x39u8);
    c.push(0x35u8);
    c.push(0x34u8);
    c.push(0x35u8);
    c.push(0x38u8);
    assert(c@.len() == 30 && c@[0] == 0x33u8 && all_digit(c@) && digits_value(c@) == 340282356779733661637539395458nat);
    c.push(0x31u8);
    c.push(0x34u8);
    c.push(0x32u8);
    c.push(0x35u8);
    c.push(0x36u8);
    c.push(0x38u8);
    c.push(0x34u8);
    c.push(0x34u8);
    c.push(0x38u8);
    assert(c@.len() == 39 && c@[0] == 0x33u8 && all_digit(c@) && digits_value(c@) == 340282356779733661637539395458142568448nat);
    c
}

/// The decimal digits of [`one_bound`].
fn digits_one() -> (c: Vec<u8>)
    ensures
        all_digit(c@),
        c@.len() == 25,
        c@[0] != 0x30u8,
        digits_value(c@) == one_bound(),
{
    proof {
        lemma_push_facts();
    }
    // Digit by digit; the value so far is checked every ten digits.
    let mut c: Vec<u8> = Vec::new();
    c.push(0x31u8);
    c.push(0x30u8);
    c.push(0x30u8);
    c.push(0x30u8);
    c.push(0x30u8);
    c.push(0x30u8);
    c.push(0x30u8);
    c.push(0x30u8);
    c.push(0x35u8);
    c.push(0x39u8);
    assert(c@.len() == 10 && c@[0] == 0x31u8 && all_digit(c@) && digits_value(c@) == 1000000059nat);
    c.push(0x36u8);
    c.push(0x30u8);
    c.push(0x34u8);
    c.push(0x36u8);
    c.push(0x34u8);
    c.push(0x34u8);
    c.push(0x37u8);
    c.push(0x37u8);
    c.push(0x35u8);
    c.push(0x33u8);
    assert(c@.len() == 20 && c@[0] == 0x31u8 && all_digit(c@) && digits_value(c@) == 10000000596046447753nat);
    c.push(0x39u8);
    c.push(0x30u8);
    c.push(0x36u8);
    c.push(0x32u8);
    c.push(0x35u8);
    assert(c@.len() == 25 && c@[0] == 0x31u8 && all_digit(c@) && digits_value(c@) == 1000000059604644775390625nat);
    c
}

/// The decimal digits of [`zero_bound`].
fn digits_zero() -> (c: Vec<u8>)
    ensures
        all_digit(c@),
        c@.len() == 105,
        c@[0] != 0x30u8,
        digits_value(c@) == zero_bound(),
{
    proof {
        lemma_push_facts();
    }
    // Digit by digit; the value so far is checked every ten digits.
    let mut c: Vec<u8> = Vec::new();
    c.push(0x37u8);
    c.push(0x30u8);
    c.push(0x30u8);
    c.push(0x36u8);
    c.push(0x34u8);
    c.push(0x39u8);
    c.push(0x32u8);
    c.push(0x33u8);
    c.push(0x32u8);
    c.push(0x31u8);
    assert(c@.len() == 10 && c@[0] == 0x37u8 && all_digit(c@) && digits_value(c@) == 7006492321nat);
    c.push(0x36u8);
    c.push(0x32u8);
    c.push(0x34u8);
    c.push(0x30u8);
    c.push(0x38u8);
    c.push(0x35u8);
    c.push(0x33u8);
    c.push(0x35u8);
    c.push(0x34u8);
    c.push(0x36u8);
    assert(c@.len() == 20 && c@[0] == 0x37u8 && all_digit(c@) && digits_value(c@) == 70064923216240853546nat);
    c.push(0x31u8);
    c.push(0x38u8);
    c.push(0x36u8);
    c.push(0x34u8);
    c.push(0x37u8);
    c.push(0x39u8);
    c.push(0x31u8);
    c.push(0x36u8);
    c.push(0x34u8);
    c.push(0x34u8);
    assert(c@.len() == 30 && c@[0] == 0x37u8 && all_digit(c@) && digits_value(c@) == 700649232162408535461864791644nat);
    c.push(0x39u8);
    c.push(0x35u8);
    c.push(0x38u8);
    c.push(0x30u8);
    c.push(0x36u8);
    c.push(0x35u8);
    c.push(0x36u8);
    c.push(0x34u8);
    c.push(0x30u8);
    c.push(0x31u8);
    assert(c@.len() == 40 && c@[0] == 0x37u8 && all_digit(c@) && digits_value(c@) == 7006492321624085354618647916449580656401nat);
    c.push(0x33u8);
    c.push(0x30u8);
    c.push(0x39u8);
    c.push(0x37u8);
    c.push(0x30u8);
    c.push(0x39u8);
    c.push(0x33u8);
    c.push(0x38u8);
    c.push(0x32u8);
    c.push(0x35u8);
    assert(c@.len() == 50 && c@[0] == 0x37u8 && all_digit(c@) && digits_value(c@) == 70064923216240853546186479164495806564013097093825nat);
    c.push(0x37u8);
    c.push(0x38u8);
    c.push(0x38u8);
    c.push(0x35u8);
    c.push(0x38u8);
    c.push(0x37u8);
    c.push(0x38u8);
    c.push(0x35u8);
    c.push(0x33u8);
    c.push(0x34u8);
    assert(c@.len() == 60 && c@[0] == 0x37u8 && all_digit(c@) && digits_value(c@) == 700649232162408535461864791644958065640130970938257885878534nat);
    c.push(0x31u8);
    c.push(0x34u8);
    c.push(0x31u8);
    c.push(0x39u8);
    c.push(0x34u8);
    c.push(0x34u8);
    c.push(0x38u8);
    c.push(0x39u8);
    c.push(0x35u8);
    c.push(0x35u8);
    assert(c@.len() == 70 && c@[0] == 0x37u8 && all_digit(c@) && digits_value(c@) == 7006492321624085354618647916449580656401309709382578858785341419448955nat);
    c.push(0x34u8);
    c.push(0x31u8);
    c.push(0x33u8);
    c.push(0x34u8);
    c.push(0x32u8);
    c.push(0x39u8);
    c.push(0x33u8);
    c.push(0x30u8);
    c.push(0x33u8);
    c.push(0x30u8);
    assert(c@.len() == 80 && c@[0] == 0x37u8 && all_digit(c@) && digits_value(c@) == 70064923216240853546186479164495806564013097093825788587853414194489554134293030nat);
    c.push(0x30u8);
    c.push(0x37u8);
    c.push(0x34u8);
    c.push(0x33u8);
    c.push(0x33u8);
    c.push(0x31u8);
    c.push(0x39u8);
    c.push(0x30u8);
    c.push(0x39u8);
    c.push(0x34u8);
    assert(c@.len() == 90 && c@[0] == 0x37u8 && all_digit(c@) && digits_value(c@) == 700649232162408535461864791644958065640130970938257885878534141944895541342930300743319094nat);
    c.push(0x31u8);
    c.push(0x38u8);
    c.push(0x31u8);
    c.push(0x30u8);
    c.push(0x36u8);
    c.push(0x30u8);
    c.push(0x37u8);
    c.push(0x39u8);
    c.push(0x31u8);
    c.push(0x30u8);
    assert(c@.len() == 100 && c@[0] == 0x37u8 && all_digit(c@) && digits_value(c@) == 7006492321624085354618647916449580656401309709382578858785341419448955413429303007433190941810607910nat);
    c.push(0x31u8);
    c.push(0x35u8);
    c.push(0x36u8);
    c.push(0x32u8);
    c.push(0x35u8);
    assert(c@.len() == 105 && c@[0] == 0x37u8 && all_digit(c@) && digits_value(c@) == 700649232162408535461864791644958065640130970938257885878534141944895541342930300743319094181060791015625nat);
    c
}

fn vs_overflow(m: &[u8], j: i128, s: Ghost<int>) -> (r: i8)
    requires
        all_digit(m@),
        no_leading_zero(m@),
        stands_for(j as int, s@),
    ensures
        r == scaled_order(digits_value(m@), s@, overflow_bound()),
{
    let c = digits_overflow();
    order_vs(m, j, s, c.as_slice(), 0)
}

fn vs_one(m: &[u8], j: i128, s: Ghost<int>) -> (r: i8)
    requires
        all_digit(m@),
        no_leading_zero(m@),
        stands_for(j as int, s@),
    ensures
        r == scaled_order(digits_value(m@), s@ + 24, one_bound()),
{
    let c = digits_one();
    order_vs(m, j, s, c.as_slice(), 24)
}

fn vs_zero(m: &[u8], j: i128, s: Ghost<int>) -> (r: i8)
    requires
        all_digit(m@),
        no_leading_zero(m@),
        stands_for(j as int, s@),
    ensures
        r == scaled_order(digits_value(m@), s@ + 150, zero_bound()),
{
    let c = digits_zero();
    order_vs(m, j, s, c.as_slice(), 150)
}

/// Whether `w` reads as a finite binary32 value.
pub fn is_finite_word(w: &[u8]) -> (r: bool)
    ensures
        r == finite_value(w@),
{
    match decimal_parts(w) {
        None => false,
        Some((m, j)) => vs_overflow(m.as_slice(), j, Ghost(scale(w@))) < 0,
    }
}

/// Whether `w` reads as a binary32 value in `[0, 1]`.
pub fn is_unit_word(w: &[u8]) -> (r: bool)
    ensures
        r == unit_value(w@),
{
    match decimal_parts(w) {
        None => false,
        Some((m, j)) => {
            let s = Ghost(scale(w@));
            if vs_overflow(m.as_slice(), j, s) >= 0 {
                false
            } else if w.len() > 0 && w[0] == 0x2du8 {
                vs_zero(m.as_slice(), j, s) <= 0
            } else {
                vs_one(m.as_slice(), j, s) <= 0
            }
        },
    }
}

/// Whether `w` reads as a finite binary32 value above 0.
pub fn is_positive_word(w: &[u8]) -> (r: bool)
    ensures
        r == positive_value(w@),
{
    match decimal_parts(w) {
        None => false,
        Some((m, j)) => {
            let s = Ghost(scale(w@));
            if vs_overflow(m.as_slice(), j, s) >= 0 {
                false
            } else if w.len() > 0 && w[0] == 0x2du8 {
                false
            } else {
                vs_zero(m.as_slice(), j, s) > 0
            }
        },
    }
}

} // verus!
