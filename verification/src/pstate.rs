//! P-state line builder. One `Line` value is one wire payload (without LF).
//!
//! Each builder method appends an element with its leading space. Output never
//! exceeds [`LINE_CAP`]: once a piece does not fit, it and every later piece
//! are dropped, and [`Line::overflowed`] reports it.

use vstd::prelude::*;
use vstd::slice::slice_to_vec;
use vstd::string::StringSliceAdditionalSpecFns;

use crate::hvec::{pline_as_slice, pline_bytes, pline_extend, pline_new};

verus! {

/// Max p-state payload (no LF).
pub const LINE_CAP: usize = 2000;

#[derive(Copy, Clone, Debug, PartialEq, Eq, Structural)]
pub enum PsType {
    Sys,
    Queue,
    Settings,
    Pos,
    Edm,
    Stat,
    Error,
}

/// The type tag that starts a p-state line.
pub open spec fn tag_bytes(ps: PsType) -> Seq<u8> {
    match ps {
        PsType::Sys => seq![0x73u8, 0x79u8, 0x73u8],
        PsType::Queue => seq![0x71u8, 0x75u8, 0x65u8, 0x75u8, 0x65u8],
        PsType::Settings => seq![0x73u8, 0x74u8, 0x67u8],
        PsType::Pos => seq![0x70u8, 0x6fu8, 0x73u8],
        PsType::Edm => seq![0x65u8, 0x64u8, 0x6du8],
        PsType::Stat => seq![0x73u8, 0x74u8, 0x61u8, 0x74u8],
        PsType::Error => seq![0x65u8, 0x72u8, 0x72u8, 0x6fu8, 0x72u8],
    }
}

impl PsType {
    fn tag(self) -> (r: Vec<u8>)
        ensures
            r@ == tag_bytes(self),
    {
        let r = match self {
            PsType::Sys => slice_to_vec(&[0x73u8, 0x79u8, 0x73u8]),
            PsType::Queue => slice_to_vec(&[0x71u8, 0x75u8, 0x65u8, 0x75u8, 0x65u8]),
            PsType::Settings => slice_to_vec(&[0x73u8, 0x74u8, 0x67u8]),
            PsType::Pos => slice_to_vec(&[0x70u8, 0x6fu8, 0x73u8]),
            PsType::Edm => slice_to_vec(&[0x65u8, 0x64u8, 0x6du8]),
            PsType::Stat => slice_to_vec(&[0x73u8, 0x74u8, 0x61u8, 0x74u8]),
            PsType::Error => slice_to_vec(&[0x65u8, 0x72u8, 0x72u8, 0x6fu8, 0x72u8]),
        };
        assert(r@ =~= tag_bytes(self));
        r
    }
}

/// Abstract line: the bytes written and whether a piece was dropped.
pub struct LineV {
    pub bytes: Seq<u8>,
    pub overflowed: bool,
}

/// Appending one piece: all of it when nothing was dropped before and it fits.
pub open spec fn app(l: LineV, b: Seq<u8>) -> LineV {
    if !l.overflowed && l.bytes.len() + b.len() <= LINE_CAP {
        LineV { bytes: l.bytes + b, overflowed: false }
    } else {
        LineV { bytes: l.bytes, overflowed: true }
    }
}

/// ` <key>:`
pub open spec fn key_app(l: LineV, k: Seq<u8>) -> LineV {
    app(app(app(l, seq![0x20u8]), k), seq![0x3au8])
}

/// The bytes of `v` each appended separately, `"` and `\` preceded by `\`.
pub open spec fn escaped_app(l: LineV, v: Seq<u8>) -> LineV
    decreases v.len(),
{
    if v.len() == 0 {
        l
    } else {
        let l1 = escaped_app(l, v.drop_last());
        let b = v.last();
        let l2 = if b == 0x22u8 || b == 0x5cu8 {
            app(l1, seq![0x5cu8])
        } else {
            l1
        };
        app(l2, seq![b])
    }
}

/// `"v"` with `"` and `\` escaped.
pub open spec fn quoted_app(l: LineV, v: Seq<u8>) -> LineV {
    app(escaped_app(app(l, seq![0x22u8]), v), seq![0x22u8])
}

/// Decimal digits of `n`, most significant first, no leading zeros.
pub open spec fn dec(n: nat) -> Seq<u8>
    decreases n,
{
    if n < 10 {
        seq![(0x30 + n) as u8]
    } else {
        dec(n / 10).push((0x30 + n % 10) as u8)
    }
}

pub open spec fn hex_digit(d: nat) -> u8 {
    if d < 10 {
        (0x30 + d) as u8
    } else {
        (0x61 + d - 10) as u8
    }
}

/// Lower-case hexadecimal digits of `n`, most significant first, no leading zeros.
pub open spec fn hex(n: nat) -> Seq<u8>
    decreases n,
{
    if n < 16 {
        seq![hex_digit(n)]
    } else {
        hex(n / 16).push(hex_digit(n % 16))
    }
}

/// `k:` then the decimal `v`; the sign of a negative value is its own piece.
pub open spec fn int_app(l: LineV, k: Seq<u8>, v: int) -> LineV {
    let l1 = key_app(l, k);
    if v < 0 {
        app(app(l1, seq![0x2du8]), dec((-v) as nat))
    } else {
        app(l1, dec(v as nat))
    }
}

/// `n` single `0` pieces.
pub open spec fn zeros_app(l: LineV, n: nat) -> LineV
    decreases n,
{
    if n == 0 {
        l
    } else {
        app(zeros_app(l, (n - 1) as nat), seq![0x30u8])
    }
}

/// `k:0x` then `v` in at least eight hex digits, each padding zero its own piece.
pub open spec fn hex32_app(l: LineV, k: Seq<u8>, v: u32) -> LineV {
    let d = hex(v as nat);
    let pad: nat = if d.len() < 8 {
        (8 - d.len()) as nat
    } else {
        0
    };
    app(zeros_app(app(key_app(l, k), seq![0x30u8, 0x78u8]), pad), d)
}

/// Pieces appended one after another.
pub open spec fn app_all(l: LineV, pieces: Seq<Seq<u8>>) -> LineV
    decreases pieces.len(),
{
    if pieces.len() == 0 {
        l
    } else {
        app(app_all(l, pieces.drop_last()), pieces.last())
    }
}

/// The pieces joined end to end.
pub open spec fn joined(pieces: Seq<Seq<u8>>) -> Seq<u8>
    decreases pieces.len(),
{
    if pieces.len() == 0 {
        Seq::empty()
    } else {
        joined(pieces.drop_last()) + pieces.last()
    }
}

/// Nothing is lost silently: a line that reports no overflow holds every
/// piece appended, in order; once a piece was dropped the line keeps its bytes
/// and keeps reporting the overflow; and the line never grows past `LINE_CAP`.
pub proof fn law_no_silent_loss(l: LineV, pieces: Seq<Seq<u8>>)
    ensures
        !app_all(l, pieces).overflowed ==> !l.overflowed && app_all(l, pieces).bytes
            == l.bytes + joined(pieces),
        l.overflowed ==> app_all(l, pieces) == l,
        l.bytes.len() <= LINE_CAP ==> app_all(l, pieces).bytes.len() <= LINE_CAP,
    decreases pieces.len(),
{
    if pieces.len() > 0 {
        law_no_silent_loss(l, pieces.drop_last());
        let prev = app_all(l, pieces.drop_last());
        if !app_all(l, pieces).overflowed {
            assert(prev.bytes + pieces.last() =~= l.bytes + joined(pieces));
        }
    }
}

/// The escaped form of one byte: `"` and `\` get a `\` in front.
pub open spec fn esc_byte(b: u8) -> Seq<u8> {
    if b == 0x22u8 || b == 0x5cu8 {
        seq![0x5cu8, b]
    } else {
        seq![b]
    }
}

/// The escaped form of `v`, byte by byte.
pub open spec fn esc(v: Seq<u8>) -> Seq<u8>
    decreases v.len(),
{
    if v.len() == 0 {
        Seq::empty()
    } else {
        esc(v.drop_last()) + esc_byte(v.last())
    }
}

/// How a reader takes a quoted value apart: up to the first bare `"`, with a
/// `\` taking the next byte literally.
pub open spec fn read_quoted(e: Seq<u8>) -> Seq<u8>
    decreases e.len(),
{
    if e.len() == 0 {
        Seq::empty()
    } else if e[0] == 0x22u8 {
        Seq::empty()
    } else if e[0] == 0x5cu8 && e.len() >= 2 {
        seq![e[1]] + read_quoted(e.skip(2))
    } else {
        seq![e[0]] + read_quoted(e.skip(1))
    }
}

proof fn lemma_esc_front(v: Seq<u8>)
    requires
        v.len() > 0,
    ensures
        esc(v) == esc_byte(v[0]) + esc(v.skip(1)),
    decreases v.len(),
{
    if v.len() == 1 {
        assert(v.drop_last() =~= Seq::<u8>::empty());
        assert(v.skip(1) =~= Seq::<u8>::empty());
        assert(esc(v.skip(1)) =~= Seq::<u8>::empty());
        assert(esc(v.drop_last()) =~= Seq::<u8>::empty());
        assert(esc(v) =~= esc_byte(v[0]));
    } else {
        lemma_esc_front(v.drop_last());
        assert(v.drop_last().skip(1) =~= v.skip(1).drop_last());
        assert(v.skip(1).last() == v.last());
        assert(esc(v.skip(1)) == esc(v.skip(1).drop_last()) + esc_byte(v.skip(1).last()));
        assert(esc(v) =~= esc_byte(v[0]) + esc(v.skip(1)));
    }
}

/// Quoted values read back exactly: a reader of `"`, the escaped value, `"`
/// and whatever follows recovers the value and stops at its closing quote.
pub proof fn law_quoted_roundtrip(v: Seq<u8>, rest: Seq<u8>)
    ensures
        read_quoted(esc(v) + seq![0x22u8] + rest) == v,
    decreases v.len(),
{
    let e = esc(v) + seq![0x22u8] + rest;
    if v.len() == 0 {
        assert(esc(v) =~= Seq::<u8>::empty());
        assert(e[0] == 0x22u8);
        assert(v =~= Seq::<u8>::empty());
    } else {
        lemma_esc_front(v);
        law_quoted_roundtrip(v.skip(1), rest);
        let tail = esc(v.skip(1)) + seq![0x22u8] + rest;
        let b = v[0];
        if b == 0x22u8 || b == 0x5cu8 {
            assert(e =~= seq![0x5cu8, b] + tail);
            assert(e.skip(2) =~= tail);
        } else {
            assert(e =~= seq![b] + tail);
            assert(e.skip(1) =~= tail);
        }
        assert(seq![b] + v.skip(1) =~= v);
    }
}

/// A quoted value is written whole or the line reports the overflow.
pub proof fn law_escaped_whole(l: LineV, v: Seq<u8>)
    ensures
        !escaped_app(l, v).overflowed ==> !l.overflowed && escaped_app(l, v).bytes == l.bytes + esc(v),
    decreases v.len(),
{
    if v.len() > 0 {
        law_escaped_whole(l, v.drop_last());
        let l1 = escaped_app(l, v.drop_last());
        let b = v.last();
        if !escaped_app(l, v).overflowed {
            if b == 0x22u8 || b == 0x5cu8 {
                assert(l1.bytes + seq![0x5cu8] + seq![b] =~= l.bytes + esc(v));
            } else {
                assert(l1.bytes + seq![b] =~= l.bytes + esc(v));
            }
        }
    } else {
        assert(esc(v) =~= Seq::<u8>::empty());
        assert(l.bytes + esc(v) =~= l.bytes);
    }
}

proof fn lemma_app_all_push(l: LineV, ps: Seq<Seq<u8>>, x: Seq<u8>)
    ensures
        app_all(l, ps.push(x)) == app(app_all(l, ps), x),
{
    assert(ps.push(x).drop_last() =~= ps);
}

proof fn lemma_app_all_empty(l: LineV)
    ensures
        app_all(l, Seq::<Seq<u8>>::empty()) == l,
{
}

/// Appending two lists of pieces is appending the first, then the second.
pub proof fn law_chain(l: LineV, a: Seq<Seq<u8>>, b: Seq<Seq<u8>>)
    ensures
        app_all(l, a + b) == app_all(app_all(l, a), b),
    decreases b.len(),
{
    if b.len() == 0 {
        assert(a + b =~= a);
    } else {
        law_chain(l, a, b.drop_last());
        assert((a + b).drop_last() =~= a + b.drop_last());
        assert((a + b).last() == b.last());
    }
}

/// A line that has not overflowed reports an overflow after further pieces
/// exactly when their whole rendering does not fit: nothing is reported
/// dropped unless something was.
pub proof fn law_overflow_iff_too_long(l: LineV, pieces: Seq<Seq<u8>>)
    requires
        !l.overflowed,
        l.bytes.len() <= LINE_CAP,
    ensures
        app_all(l, pieces).overflowed <==> l.bytes.len() + joined(pieces).len() > LINE_CAP,
    decreases pieces.len(),
{
    if pieces.len() > 0 {
        let dl = pieces.drop_last();
        law_overflow_iff_too_long(l, dl);
        law_no_silent_loss(l, dl);
        assert(joined(pieces).len() == joined(dl).len() + pieces.last().len());
        if !app_all(l, dl).overflowed {
            assert(app_all(l, dl).bytes.len() == l.bytes.len() + joined(dl).len());
        }
    }
}

/// The pieces of ` <key>:`.
pub open spec fn key_pieces(k: Seq<u8>) -> Seq<Seq<u8>> {
    seq![seq![0x20u8], k, seq![0x3au8]]
}

/// The pieces of ` <key>:<decimal>`.
pub open spec fn int_pieces(k: Seq<u8>, v: int) -> Seq<Seq<u8>> {
    if v < 0 {
        key_pieces(k) + seq![seq![0x2du8], dec((-v) as nat)]
    } else {
        key_pieces(k).push(dec(v as nat))
    }
}

/// `n` single `0` pieces.
pub open spec fn zeros_pieces(n: nat) -> Seq<Seq<u8>>
    decreases n,
{
    if n == 0 {
        Seq::empty()
    } else {
        zeros_pieces((n - 1) as nat).push(seq![0x30u8])
    }
}

/// The pieces of ` <key>:0x<hex>`.
pub open spec fn hex32_pieces(k: Seq<u8>, v: u32) -> Seq<Seq<u8>> {
    let d = hex(v as nat);
    let pad: nat = if d.len() < 8 {
        (8 - d.len()) as nat
    } else {
        0
    };
    key_pieces(k) + seq![seq![0x30u8, 0x78u8]] + zeros_pieces(pad) + seq![d]
}

/// The pieces of an escaped value: each byte, with a `\` piece before `"` and `\`.
pub open spec fn esc_pieces(v: Seq<u8>) -> Seq<Seq<u8>>
    decreases v.len(),
{
    if v.len() == 0 {
        Seq::empty()
    } else {
        let b = v.last();
        if b == 0x22u8 || b == 0x5cu8 {
            esc_pieces(v.drop_last()) + seq![seq![0x5cu8], seq![b]]
        } else {
            esc_pieces(v.drop_last()).push(seq![b])
        }
    }
}

/// The pieces of ` <key>:"<escaped value>"`.
pub open spec fn str_pieces(k: Seq<u8>, v: Seq<u8>) -> Seq<Seq<u8>> {
    key_pieces(k) + seq![seq![0x22u8]] + esc_pieces(v) + seq![seq![0x22u8]]
}

proof fn lemma_key_pieces(l: LineV, k: Seq<u8>)
    ensures
        key_app(l, k) == app_all(l, key_pieces(k)),
{
    lemma_app_all_empty(l);
    lemma_app_all_push(l, Seq::empty(), seq![0x20u8]);
    assert(Seq::<Seq<u8>>::empty().push(seq![0x20u8]) =~= seq![seq![0x20u8]]);
    lemma_app_all_push(l, seq![seq![0x20u8]], k);
    assert(seq![seq![0x20u8]].push(k) =~= seq![seq![0x20u8], k]);
    lemma_app_all_push(l, seq![seq![0x20u8], k], seq![0x3au8]);
    assert(seq![seq![0x20u8], k].push(seq![0x3au8]) =~= key_pieces(k));
}

proof fn lemma_zeros_pieces(l: LineV, n: nat)
    ensures
        zeros_app(l, n) == app_all(l, zeros_pieces(n)),
    decreases n,
{
    if n > 0 {
        lemma_zeros_pieces(l, (n - 1) as nat);
        lemma_app_all_push(l, zeros_pieces((n - 1) as nat), seq![0x30u8]);
    }
}

proof fn lemma_esc_pieces(l: LineV, v: Seq<u8>)
    ensures
        escaped_app(l, v) == app_all(l, esc_pieces(v)),
        joined(esc_pieces(v)) == esc(v),
    decreases v.len(),
{
    if v.len() > 0 {
        let p = esc_pieces(v.drop_last());
        let b = v.last();
        lemma_esc_pieces(l, v.drop_last());
        if b == 0x22u8 || b == 0x5cu8 {
            lemma_app_all_push(l, p, seq![0x5cu8]);
            lemma_app_all_push(l, p.push(seq![0x5cu8]), seq![b]);
            assert(p.push(seq![0x5cu8]).push(seq![b]) =~= p + seq![seq![0x5cu8], seq![b]]);
            let q = p.push(seq![0x5cu8]);
            assert(q.push(seq![b]).drop_last() =~= q);
            assert(q.drop_last() =~= p);
            assert(joined(q.push(seq![b])) == joined(q) + seq![b]);
            assert(joined(q) == joined(p) + seq![0x5cu8]);
            assert(joined(p) + seq![0x5cu8] + seq![b] =~= esc(v.drop_last()) + esc_byte(b));
        } else {
            lemma_app_all_push(l, p, seq![b]);
            assert(p.push(seq![b]).drop_last() =~= p);
        }
    }
}

/// Every builder call is the append of its pieces, so a chain of calls is
/// the append of all their pieces (see [`law_chain`]), and the laws on
/// pieces hold of it: nothing is lost unless an overflow is reported, an
/// overflow is reported only when the rendering does not fit, and it stays.
pub proof fn law_builder_pieces(l: LineV, k: Seq<u8>, i: int, h: u32, v: Seq<u8>, word: Seq<u8>)
    ensures
        key_app(l, k) == app_all(l, key_pieces(k)),
        app(key_app(l, k), word) == app_all(l, key_pieces(k).push(word)),
        int_app(l, k, i) == app_all(l, int_pieces(k, i)),
        hex32_app(l, k, h) == app_all(l, hex32_pieces(k, h)),
        quoted_app(key_app(l, k), v) == app_all(l, str_pieces(k, v)),
        joined(esc_pieces(v)) == esc(v),
{
    lemma_key_pieces(l, k);
    let lk = key_app(l, k);
    lemma_app_all_push(l, key_pieces(k), word);
    // decimal
    if i < 0 {
        law_chain(l, key_pieces(k), seq![seq![0x2du8], dec((-i) as nat)]);
        lemma_app_all_empty(lk);
        lemma_app_all_push(lk, Seq::empty(), seq![0x2du8]);
        assert(Seq::<Seq<u8>>::empty().push(seq![0x2du8]) =~= seq![seq![0x2du8]]);
        lemma_app_all_push(lk, seq![seq![0x2du8]], dec((-i) as nat));
        assert(seq![seq![0x2du8]].push(dec((-i) as nat)) =~= seq![seq![0x2du8], dec((-i) as nat)]);
    } else {
        lemma_app_all_push(l, key_pieces(k), dec(i as nat));
    }
    // hexadecimal
    let d = hex(h as nat);
    let pad: nat = if d.len() < 8 {
        (8 - d.len()) as nat
    } else {
        0
    };
    let a = key_pieces(k) + seq![seq![0x30u8, 0x78u8]];
    law_chain(l, key_pieces(k), seq![seq![0x30u8, 0x78u8]]);
    lemma_app_all_empty(lk);
    lemma_app_all_push(lk, Seq::empty(), seq![0x30u8, 0x78u8]);
    assert(Seq::<Seq<u8>>::empty().push(seq![0x30u8, 0x78u8]) =~= seq![seq![0x30u8, 0x78u8]]);
    let lx = app(lk, seq![0x30u8, 0x78u8]);
    law_chain(l, a, zeros_pieces(pad));
    lemma_zeros_pieces(lx, pad);
    lemma_app_all_push(l, a + zeros_pieces(pad), d);
    assert((a + zeros_pieces(pad)).push(d) =~= hex32_pieces(k, h));
    // quoted value
    let b = key_pieces(k) + seq![seq![0x22u8]];
    law_chain(l, key_pieces(k), seq![seq![0x22u8]]);
    lemma_app_all_empty(lk);
    lemma_app_all_push(lk, Seq::empty(), seq![0x22u8]);
    assert(Seq::<Seq<u8>>::empty().push(seq![0x22u8]) =~= seq![seq![0x22u8]]);
    let lq = app(lk, seq![0x22u8]);
    law_chain(l, b, esc_pieces(v));
    lemma_esc_pieces(lq, v);
    lemma_app_all_push(l, b + esc_pieces(v), seq![0x22u8]);
    assert((b + esc_pieces(v)).push(seq![0x22u8]) =~= str_pieces(k, v));
}

pub struct Line {
    buf: heapless::Vec<u8, 2000>,
    overflowed: bool,
}

impl View for Line {
    type V = LineV;

    closed spec fn view(&self) -> LineV {
        LineV { bytes: pline_bytes(self.buf), overflowed: self.overflowed }
    }
}

/// Decimal digits of `n`.
fn dec_digits(n: u32) -> (r: Vec<u8>)
    ensures
        r@ == dec(n as nat),
    decreases n,
{
    if n < 10 {
        let mut v: Vec<u8> = Vec::new();
        v.push((0x30u32 + n) as u8);
        assert(v@ =~= dec(n as nat));
        v
    } else {
        let mut v = dec_digits(n / 10);
        v.push((0x30u32 + n % 10) as u8);
        v
    }
}

/// Hexadecimal digits of `n`.
fn hex_digits(n: u32) -> (r: Vec<u8>)
    ensures
        r@ == hex(n as nat),
    decreases n,
{
    let d = n % 16;
    let c: u8 = if d < 10 {
        (0x30u32 + d) as u8
    } else {
        (0x61u32 + d - 10) as u8
    };
    if n < 16 {
        let mut v: Vec<u8> = Vec::new();
        v.push(c);
        assert(v@ =~= hex(n as nat));
        v
    } else {
        let mut v = hex_digits(n / 16);
        v.push(c);
        v
    }
}

impl Line {
    /// The line invariant: at most `LINE_CAP` bytes.
    pub closed spec fn wf(&self) -> bool {
        pline_bytes(self.buf).len() <= LINE_CAP
    }

    /// A line never holds more than `LINE_CAP` bytes.
    pub proof fn law_bounded(&self)
        requires
            self.wf(),
        ensures
            self@.bytes.len() <= LINE_CAP,
    {
    }

    /// A line holding just the tag of `ps`.
    pub fn new(ps: PsType) -> (r: Self)
        ensures
            r.wf(),
            r@ == app(LineV { bytes: Seq::empty(), overflowed: false }, tag_bytes(ps)),
    {
        let mut me = Line { buf: pline_new(), overflowed: false };
        let t = ps.tag();
        me.append(t.as_slice());
        me
    }

    /// Open the body: ` <`.
    pub fn begin(self) -> (r: Self)
        requires
            self.wf(),
        ensures
            r.wf(),
            r@ == app(self@, seq![0x20u8, 0x3cu8]),
    {
        let mut me = self;
        me.append(&[0x20u8, 0x3cu8]);
        me
    }

    /// Close the body: ` >`.
    pub fn end(self) -> (r: Self)
        requires
            self.wf(),
        ensures
            r.wf(),
            r@ == app(self@, seq![0x20u8, 0x3eu8]),
    {
        let mut me = self;
        me.append(&[0x20u8, 0x3eu8]);
        me
    }

    /// ` k:true` or ` k:false`.
    pub fn bool(self, k: &str, v: bool) -> (r: Self)
        requires
            self.wf(),
        ensures
            r.wf(),
            r@ == app(
                key_app(self@, k.spec_bytes()),
                if v {
                    seq![0x74u8, 0x72u8, 0x75u8, 0x65u8]
                } else {
                    seq![0x66u8, 0x61u8, 0x6cu8, 0x73u8, 0x65u8]
                },
            ),
    {
        let mut me = self;
        me.write_key(k);
        if v {
            me.append(&[0x74u8, 0x72u8, 0x75u8, 0x65u8]);
        } else {
            me.append(&[0x66u8, 0x61u8, 0x6cu8, 0x73u8, 0x65u8]);
        }
        me
    }

    /// ` k:<decimal v>`.
    pub fn integer(self, k: &str, v: i32) -> (r: Self)
        requires
            self.wf(),
        ensures
            r.wf(),
            r@ == int_app(self@, k.spec_bytes(), v as int),
    {
        let mut me = self;
        me.write_key(k);
        if v < 0 {
            me.append_byte(0x2du8);
            let mag: u32 = if v == i32::MIN {
                2147483648u32
            } else {
                (-v) as u32
            };
            let d = dec_digits(mag);
            me.append(d.as_slice());
        } else {
            let d = dec_digits(v as u32);
            me.append(d.as_slice());
        }
        me
    }

    /// ` k:<value text>`: a value already formatted by the caller (used for
    /// floating-point values, which this crate does not format).
    pub fn number_text(self, k: &str, text: &[u8]) -> (r: Self)
        requires
            self.wf(),
        ensures
            r.wf(),
            r@ == app(key_app(self@, k.spec_bytes()), text@),
    {
        let mut me = self;
        me.write_key(k);
        me.append(text);
        me
    }

    /// ` k:0x<v as eight or more lower-case hex digits>`.
    pub fn hex32(self, k: &str, v: u32) -> (r: Self)
        requires
            self.wf(),
        ensures
            r.wf(),
            r@ == hex32_app(self@, k.spec_bytes(), v),
    {
        let mut me = self;
        me.write_key(k);
        me.append(&[0x30u8, 0x78u8]);
        let d = hex_digits(v);
        let ghost base = me@;
        let pad: usize = if d.len() < 8 {
            8 - d.len()
        } else {
            0
        };
        let mut i: usize = 0;
        while i < pad
            invariant
                i <= pad,
                me.wf(),
                me@ == zeros_app(base, i as nat),
            decreases pad - i,
        {
            me.append_byte(0x30u8);
            i = i + 1;
        }
        me.append(d.as_slice());
        me
    }

    /// ` k:"v"` with `"` and `\` in `v` escaped by `\`.
    pub fn str_val(self, k: &str, v: &str) -> (r: Self)
        requires
            self.wf(),
        ensures
            r.wf(),
            r@ == quoted_app(key_app(self@, k.spec_bytes()), v.spec_bytes()),
    {
        let mut me = self;
        me.write_key(k);
        me.write_quoted(v.as_bytes());
        me
    }

    /// The bytes written.
    pub fn as_bytes(&self) -> (r: &[u8])
        ensures
            r@ == self@.bytes,
    {
        pline_as_slice(&self.buf)
    }

    /// Whether some piece was dropped for lack of room.
    pub fn overflowed(&self) -> (r: bool)
        ensures
            r == self@.overflowed,
    {
        self.overflowed
    }

    /// Append a raw piece (see [`app`]).
    pub fn write_str(&mut self, s: &str)
        requires
            old(self).wf(),
        ensures
            final(self).wf(),
            final(self)@ == app(old(self)@, s.spec_bytes()),
    {
        self.append(s.as_bytes());
    }

    fn append(&mut self, b: &[u8])
        requires
            old(self).wf(),
        ensures
            final(self).wf(),
            final(self)@ == app(old(self)@, b@),
    {
        if self.overflowed || !pline_extend(&mut self.buf, b) {
            self.overflowed = true;
        }
    }

    fn append_byte(&mut self, b: u8)
        requires
            old(self).wf(),
        ensures
            final(self).wf(),
            final(self)@ == app(old(self)@, seq![b]),
    {
        let a: [u8; 1] = [b];
        let s: &[u8] = &a;
        assert(s@ =~= seq![b]);
        self.append(s);
    }

    fn write_key(&mut self, k: &str)
        requires
            old(self).wf(),
        ensures
            final(self).wf(),
            final(self)@ == key_app(old(self)@, k.spec_bytes()),
    {
        self.append_byte(0x20u8);
        self.append(k.as_bytes());
        self.append_byte(0x3au8);
    }

    fn write_quoted(&mut self, v: &[u8])
        requires
            old(self).wf(),
        ensures
            final(self).wf(),
            final(self)@ == quoted_app(old(self)@, v@),
    {
        self.append_byte(0x22u8);
        let ghost base = self@;
        let mut i: usize = 0;
        while i < v.len()
            invariant
                i <= v@.len(),
                self.wf(),
                self@ == escaped_app(base, v@.take(i as int)),
            decreases v@.len() - i,
        {
            let b = v[i];
            proof {
                assert(v@.take(i + 1).drop_last() =~= v@.take(i as int));
                assert(v@.take(i + 1).last() == b);
            }
            if b == 0x22u8 || b == 0x5cu8 {
                self.append_byte(0x5cu8);
            }
            self.append_byte(b);
            i = i + 1;
        }
        assert(v@.take(v@.len() as int) =~= v@);
        self.append_byte(0x22u8);
    }
}

/// The pieces of the `error` line for `msg`.
pub open spec fn error_line(msg: Seq<u8>) -> LineV {
    let head = app(
        app(LineV { bytes: Seq::empty(), overflowed: false }, tag_bytes(PsType::Error)),
        seq![0x20u8, 0x3cu8],
    );
    let keyed = key_app(head, seq![0x6du8, 0x73u8, 0x67u8]);
    app(app(app(app(keyed, seq![0x22u8]), msg), seq![0x22u8]), seq![0x20u8, 0x3eu8])
}

/// The fixed-shape `error` line: `error < msg:"<msg>" >`. The message is
/// written as given, without escaping.
pub fn error_msg(msg: &str) -> (r: Line)
    ensures
        r.wf(),
        r@ == error_line(msg.spec_bytes()),
{
    let mut line = Line::new(PsType::Error).begin();
    line.append_byte(0x20u8);
    line.append(&[0x6du8, 0x73u8, 0x67u8]);
    line.append_byte(0x3au8);
    line.append_byte(0x22u8);
    line.append(msg.as_bytes());
    line.append_byte(0x22u8);
    line.end()
}

} // verus!
