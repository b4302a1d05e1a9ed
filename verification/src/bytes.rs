//! Byte-string helpers and the literal words of the host protocol.

use vstd::prelude::*;
use vstd::string::StringSliceAdditionalSpecFns;

verus! {

/// Whether two byte strings are equal.
pub fn eq_bytes(s: &[u8], lit: &[u8]) -> (r: bool)
    ensures
        r == (s@ == lit@),
{
    if s.len() != lit.len() {
        return false;
    }
    let mut i: usize = 0;
    while i < s.len()
        invariant
            i <= s@.len(),
            s@.len() == lit@.len(),
            forall|j: int| 0 <= j < i ==> s@[j] == lit@[j],
        decreases s@.len() - i,
    {
        if s[i] != lit[i] {
            return false;
        }
        i = i + 1;
    }
    assert(s@ =~= lit@);
    true
}

/// A copy of `line[a..b]`.
pub fn copy_range(line: &[u8], a: usize, b: usize) -> (v: Vec<u8>)
    requires
        a <= b <= line@.len(),
    ensures
        v@ == line@.subrange(a as int, b as int),
{
    let mut v: Vec<u8> = Vec::new();
    let mut i: usize = a;
    while i < b
        invariant
            a <= i <= b <= line@.len(),
            v@ == line@.subrange(a as int, i as int),
        decreases b - i,
    {
        v.push(line[i]);
        proof {
            assert(line@.subrange(a as int, i + 1) =~= line@.subrange(a as int, i as int).push(
                line@[i as int],
            ));
        }
        i = i + 1;
    }
    v
}

/// `core::str::from_utf8`: the bytes as a string slice when they are
/// well-formed UTF-8 (no overlong forms, no surrogates, nothing above
/// U+10FFFF), the same bytes; otherwise an error.
#[verifier::external_body]
pub(crate) fn str_from_utf8(bytes: &[u8]) -> (r: Option<&str>)
    ensures
        r is Some <==> vstd::utf8::valid_utf8(bytes@),
        r matches Some(s) ==> s.spec_bytes() == bytes@,
{
    core::str::from_utf8(bytes).ok()
}

/// Next to an ASCII byte, valid UTF-8 can be cut: a position at either end,
/// or with an ASCII byte on either side of it, is a character boundary.
pub proof fn lemma_ascii_boundary(s: Seq<u8>, k: int)
    requires
        vstd::utf8::valid_utf8(s),
        0 <= k <= s.len(),
        k == 0 || k == s.len() || s[k] < 0x80 || s[k - 1] < 0x80,
    ensures
        vstd::utf8::is_char_boundary(s, k),
    decreases s.len(),
{
    if k > 0 {
        let n = vstd::utf8::length_of_first_scalar(s);
        let pop = vstd::utf8::pop_first_scalar(s);
        assert(1 <= n <= s.len());
        assert(pop =~= s.subrange(n, s.len() as int));
        assert(forall|j: int| 0 < j < n ==> vstd::utf8::is_continuation_byte(#[trigger] s[j]));
        if k < n {
            assert(n > 1);
            assert(!vstd::utf8::is_leading_byte_width_1(s[0]));
            assert(false);
        } else {
            if k - n > 0 && k < s.len() {
                assert(pop[k - n] == s[k]);
            }
            if k - n > 0 {
                assert(pop[k - n - 1] == s[k - 1]);
            }
            lemma_ascii_boundary(pop, k - n);
        }
    }
}

/// `!`
pub open spec fn bang() -> Seq<u8> {
    seq![0x21u8]
}

pub fn is_bang(s: &[u8]) -> (r: bool)
    ensures
        r == (s@ == bang()),
{
    let r = s.len() == 1 && s[0] == 0x21u8;
    proof {
        if s@.len() == 1 && s@[0] == 0x21u8 {
            assert(s@ =~= bang());
        }
    }
    r
}

/// `?queue`
pub open spec fn q_queue() -> Seq<u8> {
    seq![0x3fu8, 0x71u8, 0x75u8, 0x65u8, 0x75u8, 0x65u8]
}

pub fn is_q_queue(s: &[u8]) -> (r: bool)
    ensures
        r == (s@ == q_queue()),
{
    let r = eq_bytes(s, &[0x3fu8, 0x71u8, 0x75u8, 0x65u8, 0x75u8, 0x65u8]);
    assert(q_queue() =~= seq![0x3fu8, 0x71u8, 0x75u8, 0x65u8, 0x75u8, 0x65u8]);
    r
}

/// `?pos`
pub open spec fn q_pos() -> Seq<u8> {
    seq![0x3fu8, 0x70u8, 0x6fu8, 0x73u8]
}

pub fn is_q_pos(s: &[u8]) -> (r: bool)
    ensures
        r == (s@ == q_pos()),
{
    let r = eq_bytes(s, &[0x3fu8, 0x70u8, 0x6fu8, 0x73u8]);
    assert(q_pos() =~= seq![0x3fu8, 0x70u8, 0x6fu8, 0x73u8]);
    r
}

/// `?edm`
pub open spec fn q_edm() -> Seq<u8> {
    seq![0x3fu8, 0x65u8, 0x64u8, 0x6du8]
}

pub fn is_q_edm(s: &[u8]) -> (r: bool)
    ensures
        r == (s@ == q_edm()),
{
    let r = eq_bytes(s, &[0x3fu8, 0x65u8, 0x64u8, 0x6du8]);
    assert(q_edm() =~= seq![0x3fu8, 0x65u8, 0x64u8, 0x6du8]);
    r
}

/// `set`
pub open spec fn w_set() -> Seq<u8> {
    seq![0x73u8, 0x65u8, 0x74u8]
}

pub fn is_w_set(s: &[u8]) -> (r: bool)
    ensures
        r == (s@ == w_set()),
{
    let r = eq_bytes(s, &[0x73u8, 0x65u8, 0x74u8]);
    assert(w_set() =~= seq![0x73u8, 0x65u8, 0x74u8]);
    r
}

/// `get`
pub open spec fn w_get() -> Seq<u8> {
    seq![0x67u8, 0x65u8, 0x74u8]
}

pub fn is_w_get(s: &[u8]) -> (r: bool)
    ensures
        r == (s@ == w_get()),
{
    let r = eq_bytes(s, &[0x67u8, 0x65u8, 0x74u8]);
    assert(w_get() =~= seq![0x67u8, 0x65u8, 0x74u8]);
    r
}

/// `stat`
pub open spec fn w_stat() -> Seq<u8> {
    seq![0x73u8, 0x74u8, 0x61u8, 0x74u8]
}

pub fn is_w_stat(s: &[u8]) -> (r: bool)
    ensures
        r == (s@ == w_stat()),
{
    let r = eq_bytes(s, &[0x73u8, 0x74u8, 0x61u8, 0x74u8]);
    assert(w_stat() =~= seq![0x73u8, 0x74u8, 0x61u8, 0x74u8]);
    r
}

/// `fset`
pub open spec fn w_fset() -> Seq<u8> {
    seq![0x66u8, 0x73u8, 0x65u8, 0x74u8]
}

pub fn is_w_fset(s: &[u8]) -> (r: bool)
    ensures
        r == (s@ == w_fset()),
{
    let r = eq_bytes(s, &[0x66u8, 0x73u8, 0x65u8, 0x74u8]);
    assert(w_fset() =~= seq![0x66u8, 0x73u8, 0x65u8, 0x74u8]);
    r
}

/// `ov.pump_en`
pub open spec fn k_pump_en() -> Seq<u8> {
    seq![0x6fu8, 0x76u8, 0x2eu8, 0x70u8, 0x75u8, 0x6du8, 0x70u8, 0x5fu8, 0x65u8, 0x6eu8]
}

pub fn is_k_pump_en(s: &[u8]) -> (r: bool)
    ensures
        r == (s@ == k_pump_en()),
{
    let r = eq_bytes(s, &[0x6fu8, 0x76u8, 0x2eu8, 0x70u8, 0x75u8, 0x6du8, 0x70u8, 0x5fu8, 0x65u8, 0x6eu8]);
    assert(k_pump_en() =~= seq![0x6fu8, 0x76u8, 0x2eu8, 0x70u8, 0x75u8, 0x6du8, 0x70u8, 0x5fu8, 0x65u8, 0x6eu8]);
    r
}

/// `ov.edm.retr_thresh`
pub open spec fn k_retr_thresh() -> Seq<u8> {
    seq![0x6fu8, 0x76u8, 0x2eu8, 0x65u8, 0x64u8, 0x6du8, 0x2eu8, 0x72u8, 0x65u8, 0x74u8, 0x72u8, 0x5fu8, 0x74u8, 0x68u8, 0x72u8, 0x65u8, 0x73u8, 0x68u8]
}

pub fn is_k_retr_thresh(s: &[u8]) -> (r: bool)
    ensures
        r == (s@ == k_retr_thresh()),
{
    let r = eq_bytes(s, &[0x6fu8, 0x76u8, 0x2eu8, 0x65u8, 0x64u8, 0x6du8, 0x2eu8, 0x72u8, 0x65u8, 0x74u8, 0x72u8, 0x5fu8, 0x74u8, 0x68u8, 0x72u8, 0x65u8, 0x73u8, 0x68u8]);
    assert(k_retr_thresh() =~= seq![0x6fu8, 0x76u8, 0x2eu8, 0x65u8, 0x64u8, 0x6du8, 0x2eu8, 0x72u8, 0x65u8, 0x74u8, 0x72u8, 0x5fu8, 0x74u8, 0x68u8, 0x72u8, 0x65u8, 0x73u8, 0x68u8]);
    r
}

/// `ov.edm.adv_thresh`
pub open spec fn k_adv_thresh() -> Seq<u8> {
    seq![0x6fu8, 0x76u8, 0x2eu8, 0x65u8, 0x64u8, 0x6du8, 0x2eu8, 0x61u8, 0x64u8, 0x76u8, 0x5fu8, 0x74u8, 0x68u8, 0x72u8, 0x65u8, 0x73u8, 0x68u8]
}

pub fn is_k_adv_thresh(s: &[u8]) -> (r: bool)
    ensures
        r == (s@ == k_adv_thresh()),
{
    let r = eq_bytes(s, &[0x6fu8, 0x76u8, 0x2eu8, 0x65u8, 0x64u8, 0x6du8, 0x2eu8, 0x61u8, 0x64u8, 0x76u8, 0x5fu8, 0x74u8, 0x68u8, 0x72u8, 0x65u8, 0x73u8, 0x68u8]);
    assert(k_adv_thresh() =~= seq![0x6fu8, 0x76u8, 0x2eu8, 0x65u8, 0x64u8, 0x6du8, 0x2eu8, 0x61u8, 0x64u8, 0x76u8, 0x5fu8, 0x74u8, 0x68u8, 0x72u8, 0x65u8, 0x73u8, 0x68u8]);
    r
}

/// `ov.edm.retr_speed`
pub open spec fn k_retr_speed() -> Seq<u8> {
    seq![0x6fu8, 0x76u8, 0x2eu8, 0x65u8, 0x64u8, 0x6du8, 0x2eu8, 0x72u8, 0x65u8, 0x74u8, 0x72u8, 0x5fu8, 0x73u8, 0x70u8, 0x65u8, 0x65u8, 0x64u8]
}

pub fn is_k_retr_speed(s: &[u8]) -> (r: bool)
    ensures
        r == (s@ == k_retr_speed()),
{
    let r = eq_bytes(s, &[0x6fu8, 0x76u8, 0x2eu8, 0x65u8, 0x64u8, 0x6du8, 0x2eu8, 0x72u8, 0x65u8, 0x74u8, 0x72u8, 0x5fu8, 0x73u8, 0x70u8, 0x65u8, 0x65u8, 0x64u8]);
    assert(k_retr_speed() =~= seq![0x6fu8, 0x76u8, 0x2eu8, 0x65u8, 0x64u8, 0x6du8, 0x2eu8, 0x72u8, 0x65u8, 0x74u8, 0x72u8, 0x5fu8, 0x73u8, 0x70u8, 0x65u8, 0x65u8, 0x64u8]);
    r
}

/// `ov.edm.adv_speed`
pub open spec fn k_adv_speed() -> Seq<u8> {
    seq![0x6fu8, 0x76u8, 0x2eu8, 0x65u8, 0x64u8, 0x6du8, 0x2eu8, 0x61u8, 0x64u8, 0x76u8, 0x5fu8, 0x73u8, 0x70u8, 0x65u8, 0x65u8, 0x64u8]
}

pub fn is_k_adv_speed(s: &[u8]) -> (r: bool)
    ensures
        r == (s@ == k_adv_speed()),
{
    let r = eq_bytes(s, &[0x6fu8, 0x76u8, 0x2eu8, 0x65u8, 0x64u8, 0x6du8, 0x2eu8, 0x61u8, 0x64u8, 0x76u8, 0x5fu8, 0x73u8, 0x70u8, 0x65u8, 0x65u8, 0x64u8]);
    assert(k_adv_speed() =~= seq![0x6fu8, 0x76u8, 0x2eu8, 0x65u8, 0x64u8, 0x6du8, 0x2eu8, 0x61u8, 0x64u8, 0x76u8, 0x5fu8, 0x73u8, 0x70u8, 0x65u8, 0x65u8, 0x64u8]);
    r
}

/// `true`
pub open spec fn w_true() -> Seq<u8> {
    seq![0x74u8, 0x72u8, 0x75u8, 0x65u8]
}

pub fn is_w_true(s: &[u8]) -> (r: bool)
    ensures
        r == (s@ == w_true()),
{
    let r = eq_bytes(s, &[0x74u8, 0x72u8, 0x75u8, 0x65u8]);
    assert(w_true() =~= seq![0x74u8, 0x72u8, 0x75u8, 0x65u8]);
    r
}

/// `false`
pub open spec fn w_false() -> Seq<u8> {
    seq![0x66u8, 0x61u8, 0x6cu8, 0x73u8, 0x65u8]
}

pub fn is_w_false(s: &[u8]) -> (r: bool)
    ensures
        r == (s@ == w_false()),
{
    let r = eq_bytes(s, &[0x66u8, 0x61u8, 0x6cu8, 0x73u8, 0x65u8]);
    assert(w_false() =~= seq![0x66u8, 0x61u8, 0x6cu8, 0x73u8, 0x65u8]);
    r
}

/// `none`
pub open spec fn w_none() -> Seq<u8> {
    seq![0x6eu8, 0x6fu8, 0x6eu8, 0x65u8]
}

pub fn is_w_none(s: &[u8]) -> (r: bool)
    ensures
        r == (s@ == w_none()),
{
    let r = eq_bytes(s, &[0x6eu8, 0x6fu8, 0x6eu8, 0x65u8]);
    assert(w_none() =~= seq![0x6eu8, 0x6fu8, 0x6eu8, 0x65u8]);
    r
}

} // verus!
