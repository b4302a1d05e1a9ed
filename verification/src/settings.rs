//! Settings keys: capacities and the names used in key segments.

use vstd::prelude::*;

use vstd::string::StringSliceAdditionalSpecFns;

use crate::bytes::eq_bytes;
use crate::coords::{Axis, CoordSys};
use crate::hvec::{key_bytes, key_index, key_new, key_push, map_entries, map_insert, map_iter, map_new};

verus! {

pub const N_MOTORS: usize = 7;

/// Settings key max length, in bytes (`a.x.home.origin` is 15).
pub const STG_KEY_CAP: usize = 20;

/// Max number of key segments (`cs.w.pos.x` has 4).
pub const STG_KEY_SEGS_CAP: usize = 5;

/// A read or write failed because the key is not in the settings repo.
#[derive(Clone, Copy, Debug, PartialEq, Eq, Structural)]
pub struct Unknown;

} // verus!

verus! {

/// A one-character string is encoded as the single byte of its ASCII character.
proof fn lemma_single_ascii(s: Seq<char>, c: u8)
    requires
        c < 0x80,
    ensures
        (vstd::utf8::encode_utf8(s) == seq![c]) <==> (s == seq![c as char]),
{
    broadcast use vstd::utf8::encode_utf8_decode_utf8;

    let ch = c as char;
    let v = ch as u32;
    assert(v == c as u32);
    let e = vstd::utf8::encode_utf8(seq![ch]);
    assert(seq![ch].drop_first() =~= Seq::<char>::empty());
    assert(vstd::utf8::leading_byte_width_1(v) == c) by {
        assert((v & 0x7F) as u8 == c) by (bit_vector)
            requires
                v == c as u32,
                c < 0x80,
        ;
    }
    assert(vstd::utf8::encode_scalar(v) =~= seq![c]);
    assert(seq![ch][0] == ch);
    assert(vstd::utf8::encode_utf8(Seq::<char>::empty()) =~= Seq::<u8>::empty());
    assert(e == vstd::utf8::encode_scalar(v) + vstd::utf8::encode_utf8(seq![ch].drop_first()));
    assert(e =~= seq![c]);
    if vstd::utf8::encode_utf8(s) == seq![c] {
        assert(vstd::utf8::decode_utf8(vstd::utf8::encode_utf8(s)) == s);
        assert(vstd::utf8::decode_utf8(e) == seq![ch]);
    }
}

/// Whether `s` is exactly the one ASCII character `c`.
fn is_char_str(s: &str, c: u8) -> (r: bool)
    requires
        c < 0x80,
    ensures
        r == (s@ == seq![c as char]),
{
    let b = s.as_bytes();
    proof {
        lemma_single_ascii(s@, c);
    }
    let r = b.len() == 1 && b[0] == c;
    proof {
        if b@.len() == 1 && b@[0] == c {
            assert(b@ =~= seq![c]);
        }
    }
    r
}

/// Settings-key segment of an offset coordinate system. The machine system
/// has no settable offset and so no segment.
pub fn cs_name(cs: CoordSys) -> (r: &'static str)
    requires
        cs != CoordSys::Machine,
    ensures
        cs == CoordSys::Work ==> r@ == seq!['w'],
        cs == CoordSys::Grinder ==> r@ == seq!['g'],
{
    match cs {
        CoordSys::Work => {
            proof {
                reveal_strlit("w");
            }
            "w"
        },
        _ => {
            proof {
                reveal_strlit("g");
            }
            "g"
        },
    }
}

/// Coordinate system named by a settings-key segment.
pub fn cs_parse(s: &str) -> (r: Option<CoordSys>)
    ensures
        r == (if s@ == seq!['w'] {
            Some(CoordSys::Work)
        } else if s@ == seq!['g'] {
            Some(CoordSys::Grinder)
        } else {
            None
        }),
{
    if is_char_str(s, 0x77u8) {
        Some(CoordSys::Work)
    } else if is_char_str(s, 0x67u8) {
        Some(CoordSys::Grinder)
    } else {
        None
    }
}

/// Settings-key segment of an axis.
pub fn axis_name(axis: Axis) -> (r: &'static str)
    ensures
        r@ == seq![
            match axis {
                Axis::X => 'x',
                Axis::Y => 'y',
                Axis::Z => 'z',
            },
        ],
{
    match axis {
        Axis::X => {
            proof {
                reveal_strlit("x");
            }
            "x"
        },
        Axis::Y => {
            proof {
                reveal_strlit("y");
            }
            "y"
        },
        Axis::Z => {
            proof {
                reveal_strlit("z");
            }
            "z"
        },
    }
}

/// Axis named by a settings-key segment.
pub fn axis_parse(s: &str) -> (r: Option<Axis>)
    ensures
        r == (if s@ == seq!['x'] {
            Some(Axis::X)
        } else if s@ == seq!['y'] {
            Some(Axis::Y)
        } else if s@ == seq!['z'] {
            Some(Axis::Z)
        } else {
            None
        }),
{
    if is_char_str(s, 0x78u8) {
        Some(Axis::X)
    } else if is_char_str(s, 0x79u8) {
        Some(Axis::Y)
    } else if is_char_str(s, 0x7au8) {
        Some(Axis::Z)
    } else {
        None
    }
}

} // verus!

verus! {

// ---------------------------------------------------------------------------
// The settings repo
// ---------------------------------------------------------------------------

/// Number of settings keys.
pub const N_KEYS: usize = 46;

/// Default value bits (IEEE 754 single precision) used by [`Repo::defaults`].
pub const BITS_ZERO: u32 = 0x0000_0000; // 0.0
pub const BITS_ONE: u32 = 0x3f80_0000; // 1.0
pub const BITS_TWO: u32 = 0x4000_0000; // 2.0
pub const BITS_MINUS_ONE: u32 = 0xbf80_0000; // -1.0
pub const BITS_HOME_TRAVEL: u32 = 0x43fa_0000; // 500.0
pub const BITS_MOTOR_CURRENT: u32 = 0x41f0_0000; // 30.0
pub const BITS_MOTOR_MICROSTEP: u32 = 0x4200_0000; // 32.0
pub const BITS_UNITSTEPS: u32 = 0x4348_0000; // 200.0
pub const BITS_UNITSTEPS_INVERTED: u32 = 0xc348_0000; // -200.0
pub const BITS_UNITSTEPS_SPOOL: u32 = 0x45c8_0000; // 6400.0
pub const BITS_UNITSTEPS_FEED: u32 = 0x434b_cccd; // 203.8

/// `x`, `y`, `z` for axis number 0, 1, 2.
pub open spec fn axis_letter(a: int) -> u8 {
    if a == 0 {
        0x78u8
    } else if a == 1 {
        0x79u8
    } else {
        0x7au8
    }
}

/// `origin`, `phase`, `side`, `travel`.
pub open spec fn home_prop(p: int) -> Seq<u8> {
    if p == 0 {
        seq![0x6fu8, 0x72u8, 0x69u8, 0x67u8, 0x69u8, 0x6eu8]
    } else if p == 1 {
        seq![0x70u8, 0x68u8, 0x61u8, 0x73u8, 0x65u8]
    } else if p == 2 {
        seq![0x73u8, 0x69u8, 0x64u8, 0x65u8]
    } else {
        seq![0x74u8, 0x72u8, 0x61u8, 0x76u8, 0x65u8, 0x6cu8]
    }
}

/// `current`, `microstep`, `thresh`, `unitsteps`.
pub open spec fn motor_prop(p: int) -> Seq<u8> {
    if p == 0 {
        seq![0x63u8, 0x75u8, 0x72u8, 0x72u8, 0x65u8, 0x6eu8, 0x74u8]
    } else if p == 1 {
        seq![0x6du8, 0x69u8, 0x63u8, 0x72u8, 0x6fu8, 0x73u8, 0x74u8, 0x65u8, 0x70u8]
    } else if p == 2 {
        seq![0x74u8, 0x68u8, 0x72u8, 0x65u8, 0x73u8, 0x68u8]
    } else {
        seq![0x75u8, 0x6eu8, 0x69u8, 0x74u8, 0x73u8, 0x74u8, 0x65u8, 0x70u8, 0x73u8]
    }
}

/// `a.<axis>.home.<prop>`
pub open spec fn home_key(a: int, p: int) -> Seq<u8> {
    seq![0x61u8, 0x2eu8, axis_letter(a), 0x2eu8, 0x68u8, 0x6fu8, 0x6du8, 0x65u8, 0x2eu8]
        + home_prop(p)
}

/// `cs.<g|w>.pos.<axis>`
pub open spec fn cs_key(c: int, a: int) -> Seq<u8> {
    seq![
        0x63u8,
        0x73u8,
        0x2eu8,
        if c == 0 {
            0x67u8
        } else {
            0x77u8
        },
        0x2eu8,
        0x70u8,
        0x6fu8,
        0x73u8,
        0x2eu8,
        axis_letter(a),
    ]
}

/// `m.<motor>.<prop>`
pub open spec fn motor_key(m: int, p: int) -> Seq<u8> {
    seq![0x6du8, 0x2eu8, (0x30 + m) as u8, 0x2eu8] + motor_prop(p)
}

/// The key of the `n`-th default entry: homing of axes x, y, z (four each),
/// then the offsets of coordinate systems g and w (three axes each), then the
/// motors 0 to 6 (four each).
pub open spec fn entry_key(n: int) -> Seq<u8> {
    if n < 12 {
        home_key(n / 4, n % 4)
    } else if n < 18 {
        cs_key((n - 12) / 3, (n - 12) % 3)
    } else {
        motor_key((n - 18) / 4, (n - 18) % 4)
    }
}

/// The default value bits of the `n`-th entry.
pub open spec fn entry_bits(n: int) -> u32 {
    if n < 12 {
        let a = n / 4;
        let p = n % 4;
        if p == 0 {
            BITS_ZERO
        } else if p == 1 {
            // phase: x 1, y 2, z 0
            if a == 0 {
                BITS_ONE
            } else if a == 1 {
                BITS_TWO
            } else {
                BITS_ZERO
            }
        } else if p == 2 {
            // side: y homes negative
            if a == 1 {
                BITS_MINUS_ONE
            } else {
                BITS_ONE
            }
        } else {
            BITS_HOME_TRAVEL
        }
    } else if n < 18 {
        BITS_ZERO
    } else {
        let m = (n - 18) / 4;
        let p = (n - 18) % 4;
        if p == 0 {
            BITS_MOTOR_CURRENT
        } else if p == 1 {
            BITS_MOTOR_MICROSTEP
        } else if p == 2 {
            BITS_TWO
        } else if m == 1 || m == 2 {
            // motors 1 and 2 run inverted
            BITS_UNITSTEPS_INVERTED
        } else if m == 5 {
            // wire spool
            BITS_UNITSTEPS_SPOOL
        } else if m == 6 {
            // wire feed
            BITS_UNITSTEPS_FEED
        } else {
            BITS_UNITSTEPS
        }
    }
}

/// Every settings key with its default value bits, in repo order.
pub open spec fn default_entries() -> Seq<(Seq<u8>, u32)> {
    Seq::new(N_KEYS as nat, |n: int| (entry_key(n), entry_bits(n)))
}

/// A storable key: ASCII, at most `STG_KEY_CAP` bytes.
pub open spec fn key_ok(k: Seq<u8>) -> bool {
    k.len() <= STG_KEY_CAP && forall|j: int| 0 <= j < k.len() ==> #[trigger] k[j] < 0x80
}

/// The entry number a default key encodes, read from the bytes that tell
/// the keys apart.
spec fn key_code(k: Seq<u8>) -> int {
    if k[0] == 0x61u8 {
        (k[2] - 0x78) * 4 + (if k[9] == 0x6fu8 {
            0int
        } else if k[9] == 0x70u8 {
            1
        } else if k[9] == 0x73u8 {
            2
        } else {
            3
        })
    } else if k[0] == 0x63u8 {
        12 + (if k[3] == 0x67u8 {
            0int
        } else {
            3
        }) + (k[9] - 0x78)
    } else {
        18 + (k[2] - 0x30) * 4 + (if k[4] == 0x63u8 {
            0int
        } else if k[4] == 0x6du8 {
            1
        } else if k[4] == 0x74u8 {
            2
        } else {
            3
        })
    }
}

proof fn lemma_entry_key(n: int)
    requires
        0 <= n < N_KEYS,
    ensures
        key_code(entry_key(n)) == n,
        key_ok(entry_key(n)),
        entry_key(n).len() >= 10,
{
    if n < 12 {
        assert(0 <= n / 4 < 3 && 0 <= n % 4 < 4 && n == (n / 4) * 4 + n % 4);
    } else if n < 18 {
        assert(0 <= (n - 12) / 3 < 2 && 0 <= (n - 12) % 3 < 3 && n - 12 == ((n - 12) / 3) * 3 + (
        n - 12) % 3);
    } else {
        assert(0 <= (n - 18) / 4 < 7 && 0 <= (n - 18) % 4 < 4 && n - 18 == ((n - 18) / 4) * 4 + (n
            - 18) % 4);
    }
}

/// The default keys are all different.
proof fn lemma_default_keys_distinct()
    ensures
        forall|i: int, j: int|
            0 <= i < N_KEYS && 0 <= j < N_KEYS && i != j ==> #[trigger] entry_key(i)
                != #[trigger] entry_key(j),
{
    assert forall|i: int, j: int|
        0 <= i < N_KEYS && 0 <= j < N_KEYS && i != j implies #[trigger] entry_key(i)
        != #[trigger] entry_key(j) by {
        lemma_entry_key(i);
        lemma_entry_key(j);
    }
}

/// `key_index` finds the first entry with the key, or reports that none has it.
pub proof fn lemma_key_index(es: Seq<(Seq<u8>, u32)>, k: Seq<u8>)
    ensures
        -1 <= key_index(es, k) < es.len(),
        key_index(es, k) >= 0 ==> es[key_index(es, k)].0 == k,
        forall|j: int| 0 <= j < es.len() && es[j].0 == k ==> key_index(es, k) >= 0 && key_index(
            es,
            k,
        ) <= j,
    decreases es.len(),
{
    if es.len() > 0 {
        lemma_key_index(es.drop_last(), k);
        assert forall|j: int| 0 <= j < es.len() && es[j].0 == k implies key_index(es, k) >= 0
            && key_index(es, k) <= j by {
            if j < es.len() - 1 {
                assert(es.drop_last()[j] == es[j]);
            }
        }
    }
}

/// The value stored under `k`, if `k` is a key.
pub open spec fn lookup(es: Seq<(Seq<u8>, u32)>, k: Seq<u8>) -> Option<u32> {
    let i = key_index(es, k);
    if i >= 0 {
        Some(es[i].1)
    } else {
        None
    }
}

/// The entries after storing `v` under `k`: changed in place if `k` is a key,
/// unchanged otherwise.
pub open spec fn store(es: Seq<(Seq<u8>, u32)>, k: Seq<u8>, v: u32) -> Seq<(Seq<u8>, u32)> {
    let i = key_index(es, k);
    if i >= 0 {
        es.update(i, (k, v))
    } else {
        es
    }
}

/// The keys of the entries, in order.
pub open spec fn keys_of(es: Seq<(Seq<u8>, u32)>) -> Seq<Seq<u8>> {
    es.map_values(|e: (Seq<u8>, u32)| e.0)
}

/// The settings repo: every key with its value, as the bits of an IEEE 754
/// single-precision number. The key set is fixed at [`Repo::defaults`];
/// writes change values in place, so iteration keeps the default order.
pub struct Repo {
    map: heapless::LinearMap<heapless::String<20>, u32, 64>,
}

impl View for Repo {
    type V = Seq<(Seq<u8>, u32)>;

    closed spec fn view(&self) -> Seq<(Seq<u8>, u32)> {
        map_entries(self.map)
    }
}

/// Search the entries for `k`.
fn find_key(es: &Vec<(Vec<u8>, u32)>, k: &[u8]) -> (r: Option<usize>)
    ensures
        match r {
            Some(i) => i < es@.len() && es@[i as int].0@ == k@ && forall|j: int|
                0 <= j < i ==> (#[trigger] es@[j]).0@ != k@,
            None => forall|j: int| 0 <= j < es@.len() ==> (#[trigger] es@[j]).0@ != k@,
        },
{
    let mut i: usize = 0;
    while i < es.len()
        invariant
            i <= es@.len(),
            forall|j: int| 0 <= j < i ==> (#[trigger] es@[j]).0@ != k@,
        decreases es@.len() - i,
    {
        if eq_bytes(es[i].0.as_slice(), k) {
            return Some(i);
        }
        i = i + 1;
    }
    None
}

/// A heapless key holding the bytes `b`.
fn make_key(b: &[u8]) -> (k: heapless::String<20>)
    requires
        key_ok(b@),
    ensures
        key_bytes(k) == b@,
{
    let mut k = key_new();
    let mut i: usize = 0;
    while i < b.len()
        invariant
            i <= b@.len(),
            key_ok(b@),
            key_bytes(k) == b@.take(i as int),
        decreases b@.len() - i,
    {
        let c = b[i];
        let ok = key_push(&mut k, c);
        proof {
            assert(ok);
            assert(b@.take(i + 1) =~= b@.take(i as int).push(c));
        }
        i = i + 1;
    }
    assert(b@.take(b@.len() as int) =~= b@);
    k
}

/// The key bytes of the `n`-th default entry.
fn entry_key_bytes(n: usize) -> (r: Vec<u8>)
    requires
        n < N_KEYS,
    ensures
        r@ == entry_key(n as int),
{
    let mut v: Vec<u8> = Vec::new();
    if n < 12 {
        let a = n / 4;
        let p = n % 4;
        let al: u8 = if a == 0 {
            0x78
        } else if a == 1 {
            0x79
        } else {
            0x7a
        };
        v.extend_from_slice(&[0x61u8, 0x2eu8, al, 0x2eu8, 0x68u8, 0x6fu8, 0x6du8, 0x65u8, 0x2eu8]);
        if p == 0 {
            v.extend_from_slice(&[0x6fu8, 0x72u8, 0x69u8, 0x67u8, 0x69u8, 0x6eu8]);
        } else if p == 1 {
            v.extend_from_slice(&[0x70u8, 0x68u8, 0x61u8, 0x73u8, 0x65u8]);
        } else if p == 2 {
            v.extend_from_slice(&[0x73u8, 0x69u8, 0x64u8, 0x65u8]);
        } else {
            v.extend_from_slice(&[0x74u8, 0x72u8, 0x61u8, 0x76u8, 0x65u8, 0x6cu8]);
        }
        assert(v@ =~= home_key(a as int, p as int));
    } else if n < 18 {
        let c = (n - 12) / 3;
        let a = (n - 12) % 3;
        let cl: u8 = if c == 0 {
            0x67
        } else {
            0x77
        };
        let al: u8 = if a == 0 {
            0x78
        } else if a == 1 {
            0x79
        } else {
            0x7a
        };
        v.extend_from_slice(&[0x63u8, 0x73u8, 0x2eu8, cl, 0x2eu8, 0x70u8, 0x6fu8, 0x73u8, 0x2eu8, al]);
        assert(v@ =~= cs_key(c as int, a as int));
    } else {
        let m = (n - 18) / 4;
        let p = (n - 18) % 4;
        let digit: u8 = 0x30u8 + m as u8;
        v.extend_from_slice(&[0x6du8, 0x2eu8, digit, 0x2eu8]);
        if p == 0 {
            v.extend_from_slice(&[0x63u8, 0x75u8, 0x72u8, 0x72u8, 0x65u8, 0x6eu8, 0x74u8]);
        } else if p == 1 {
            v.extend_from_slice(
                &[0x6du8, 0x69u8, 0x63u8, 0x72u8, 0x6fu8, 0x73u8, 0x74u8, 0x65u8, 0x70u8],
            );
        } else if p == 2 {
            v.extend_from_slice(&[0x74u8, 0x68u8, 0x72u8, 0x65u8, 0x73u8, 0x68u8]);
        } else {
            v.extend_from_slice(
                &[0x75u8, 0x6eu8, 0x69u8, 0x74u8, 0x73u8, 0x74u8, 0x65u8, 0x70u8, 0x73u8],
            );
        }
        assert(v@ =~= motor_key(m as int, p as int));
    }
    v
}

/// The default value bits of the `n`-th entry.
fn entry_default_bits(n: usize) -> (r: u32)
    requires
        n < N_KEYS,
    ensures
        r == entry_bits(n as int),
{
    if n < 12 {
        let a = n / 4;
        let p = n % 4;
        if p == 0 {
            BITS_ZERO
        } else if p == 1 {
            if a == 0 {
                BITS_ONE
            } else if a == 1 {
                BITS_TWO
            } else {
                BITS_ZERO
            }
        } else if p == 2 {
            if a == 1 {
                BITS_MINUS_ONE
            } else {
                BITS_ONE
            }
        } else {
            BITS_HOME_TRAVEL
        }
    } else if n < 18 {
        BITS_ZERO
    } else {
        let m = (n - 18) / 4;
        let p = (n - 18) % 4;
        if p == 0 {
            BITS_MOTOR_CURRENT
        } else if p == 1 {
            BITS_MOTOR_MICROSTEP
        } else if p == 2 {
            BITS_TWO
        } else if m == 1 || m == 2 {
            BITS_UNITSTEPS_INVERTED
        } else if m == 5 {
            BITS_UNITSTEPS_SPOOL
        } else if m == 6 {
            BITS_UNITSTEPS_FEED
        } else {
            BITS_UNITSTEPS
        }
    }
}

impl Repo {
    /// The repo's keys are exactly the default keys, in the default order.
    pub open spec fn wf(&self) -> bool {
        keys_of(self@) == keys_of(default_entries())
    }

    /// Every key with its default value.
    pub fn defaults() -> (r: Self)
        ensures
            r.wf(),
            r@ == default_entries(),
    {
        let mut map = map_new();
        let mut n: usize = 0;
        proof {
            lemma_default_keys_distinct();
        }
        while n < N_KEYS
            invariant
                n <= N_KEYS,
                map_entries(map) == default_entries().take(n as int),
                forall|i: int, j: int|
                    0 <= i < N_KEYS && 0 <= j < N_KEYS && i != j ==> #[trigger] entry_key(i)
                        != #[trigger] entry_key(j),
            decreases N_KEYS - n,
        {
            let k = entry_key_bytes(n);
            let v = entry_default_bits(n);
            proof {
                lemma_entry_key(n as int);
                let es = default_entries().take(n as int);
                lemma_key_index(es, k@);
                if key_index(es, k@) >= 0 {
                    let i = key_index(es, k@);
                    assert(es[i].0 == entry_key(i));
                    assert(false);
                }
            }
            let key = make_key(k.as_slice());
            let r = map_insert(&mut map, key, v);
            proof {
                assert(default_entries().take(n + 1) =~= default_entries().take(n as int).push(
                    (k@, v),
                ));
            }
            n = n + 1;
        }
        let r = Repo { map };
        assert(default_entries().take(N_KEYS as int) =~= default_entries());
        r
    }

    /// The value bits stored under `key`, if it is a key.
    pub fn get(&self, key: &str) -> (r: Option<u32>)
        ensures
            r == lookup(self@, key.spec_bytes()),
    {
        let es = map_iter(&self.map);
        let kb = key.as_bytes();
        let found = find_key(&es, kb);
        proof {
            lemma_key_index(self@, kb@);
        }
        match found {
            Some(i) => {
                proof {
                    let ki = key_index(self@, kb@);
                    assert(es@[ki].0@ == self@[ki].0);
                    assert(ki == i);
                }
                Some(es[i].1)
            },
            None => {
                proof {
                    if key_index(self@, kb@) >= 0 {
                        let ki = key_index(self@, kb@);
                        assert(es@[ki].0@ == self@[ki].0);
                    }
                }
                None
            },
        }
    }

    /// Whether `key` is a key of the repo.
    pub fn contains(&self, key: &str) -> (r: bool)
        ensures
            r == (key_index(self@, key.spec_bytes()) >= 0),
    {
        let es = map_iter(&self.map);
        let kb = key.as_bytes();
        let found = find_key(&es, kb);
        proof {
            lemma_key_index(self@, kb@);
            match found {
                Some(i) => {
                    assert(es@[i as int].0@ == self@[i as int].0);
                },
                None => {
                    if key_index(self@, kb@) >= 0 {
                        let ki = key_index(self@, kb@);
                        assert(es@[ki].0@ == self@[ki].0);
                    }
                },
            }
        }
        found.is_some()
    }

    /// Commit value bits `v` under `key`. Fails, changing nothing, if `key` is
    /// not a key: the key set is fixed at [`Repo::defaults`].
    pub fn set(&mut self, key: &str, v: u32) -> (r: Result<(), Unknown>)
        requires
            old(self).wf(),
        ensures
            final(self).wf(),
            r is Ok <==> key_index(old(self)@, key.spec_bytes()) >= 0,
            final(self)@ == store(old(self)@, key.spec_bytes(), v),
    {
        let kb = key.as_bytes();
        if !self.contains(key) {
            return Err(Unknown);
        }
        proof {
            let ki = key_index(self@, kb@);
            lemma_key_index(self@, kb@);
            assert(keys_of(self@).len() == self@.len());
            assert(self@.len() == N_KEYS);
            assert(keys_of(self@)[ki] == self@[ki].0);
            assert(keys_of(default_entries())[ki] == entry_key(ki));
            lemma_entry_key(ki);
        }
        let k = make_key(kb);
        let _ = map_insert(&mut self.map, k, v);
        proof {
            assert(keys_of(self@) =~= keys_of(default_entries()));
        }
        Ok(())
    }

    /// Every key with its value bits, in repo order.
    pub fn iter(&self) -> (r: Vec<(Vec<u8>, u32)>)
        ensures
            r@.len() == self@.len(),
            forall|i: int|
                0 <= i < r@.len() ==> (#[trigger] r@[i]).0@ == self@[i].0 && r@[i].1 == self@[i].1,
    {
        map_iter(&self.map)
    }
}

/// A written value is read back, and only the written key changes: after a
/// successful write of `v` under `k`, reading `k` gives `v` and reading any
/// other key gives what it gave before; the key set stays the same.
pub proof fn law_set_then_get(es: Seq<(Seq<u8>, u32)>, k: Seq<u8>, v: u32, other: Seq<u8>)
    requires
        key_index(es, k) >= 0,
        other != k,
    ensures
        lookup(store(es, k, v), k) == Some(v),
        lookup(store(es, k, v), other) == lookup(es, other),
        keys_of(store(es, k, v)) == keys_of(es),
{
    let s = store(es, k, v);
    let i = key_index(es, k);
    lemma_key_index(es, k);
    lemma_key_index(s, k);
    lemma_key_index(es, other);
    lemma_key_index(s, other);
    assert(s[i].0 == k);
    assert(keys_of(s) =~= keys_of(es));
    let ko = key_index(es, other);
    let so = key_index(s, other);
    if so >= 0 {
        assert(s[so].0 == es[so].0);
    }
    if ko >= 0 {
        assert(s[ko].0 == es[ko].0);
    }
}

/// Every default key can be read, and every other string is not a key.
pub proof fn law_default_keys(k: Seq<u8>)
    ensures
        key_index(default_entries(), k) >= 0 <==> exists|n: int|
            0 <= n < N_KEYS && #[trigger] entry_key(n) == k,
{
    lemma_key_index(default_entries(), k);
    if exists|n: int| 0 <= n < N_KEYS && #[trigger] entry_key(n) == k {
        let n = choose|n: int| 0 <= n < N_KEYS && #[trigger] entry_key(n) == k;
        assert(default_entries()[n].0 == k);
    }
}

proof fn lemma_lookup_default(n: int)
    requires
        0 <= n < N_KEYS,
    ensures
        lookup(default_entries(), entry_key(n)) == Some(entry_bits(n)),
{
    lemma_default_keys_distinct();
    let es = default_entries();
    lemma_key_index(es, entry_key(n));
    assert(es[n].0 == entry_key(n));
    let i = key_index(es, entry_key(n));
    assert(es[i].0 == entry_key(i));
}

/// `a.<l>.home.<prop>`, written out.
pub open spec fn home_text(l: u8, prop: Seq<u8>) -> Seq<u8> {
    seq![0x61u8, 0x2eu8] + seq![l] + seq![0x2eu8, 0x68u8, 0x6fu8, 0x6du8, 0x65u8, 0x2eu8] + prop
}

/// `cs.<c>.pos.<l>`, written out.
pub open spec fn cs_text(c: u8, l: u8) -> Seq<u8> {
    seq![0x63u8, 0x73u8, 0x2eu8] + seq![c] + seq![0x2eu8, 0x70u8, 0x6fu8, 0x73u8, 0x2eu8] + seq![l]
}

/// `m.<d>.<prop>`, written out.
pub open spec fn motor_text(d: u8, prop: Seq<u8>) -> Seq<u8> {
    seq![0x6du8, 0x2eu8] + seq![d] + seq![0x2eu8] + prop
}

/// The default homing settings: origin 0 and travel 500 on every axis,
/// phase 1 on x, 2 on y and 0 on z, and only y homes toward negative (side
/// -1; x and z +1).
pub proof fn law_default_homing(l: u8)
    requires
        l == 0x78u8 || l == 0x79u8 || l == 0x7au8,
    ensures
        lookup(default_entries(), home_text(l, seq![0x6fu8, 0x72u8, 0x69u8, 0x67u8, 0x69u8, 0x6eu8])) == Some(BITS_ZERO),
        lookup(default_entries(), home_text(l, seq![0x70u8, 0x68u8, 0x61u8, 0x73u8, 0x65u8])) == Some(
            if l == 0x78u8 {
                BITS_ONE
            } else if l == 0x79u8 {
                BITS_TWO
            } else {
                BITS_ZERO
            },
        ),
        lookup(default_entries(), home_text(l, seq![0x73u8, 0x69u8, 0x64u8, 0x65u8])) == Some(
            if l == 0x79u8 {
                BITS_MINUS_ONE
            } else {
                BITS_ONE
            },
        ),
        lookup(default_entries(), home_text(l, seq![0x74u8, 0x72u8, 0x61u8, 0x76u8, 0x65u8, 0x6cu8])) == Some(BITS_HOME_TRAVEL),
{
    let a: int = l - 0x78u8;
    assert(home_text(l, seq![0x6fu8, 0x72u8, 0x69u8, 0x67u8, 0x69u8, 0x6eu8]) =~= entry_key(a * 4));
    assert(home_text(l, seq![0x70u8, 0x68u8, 0x61u8, 0x73u8, 0x65u8]) =~= entry_key(a * 4 + 1));
    assert(home_text(l, seq![0x73u8, 0x69u8, 0x64u8, 0x65u8]) =~= entry_key(a * 4 + 2));
    assert(home_text(l, seq![0x74u8, 0x72u8, 0x61u8, 0x76u8, 0x65u8, 0x6cu8]) =~= entry_key(a * 4 + 3));
    lemma_lookup_default(a * 4);
    lemma_lookup_default(a * 4 + 1);
    lemma_lookup_default(a * 4 + 2);
    lemma_lookup_default(a * 4 + 3);
}

/// Every coordinate-system offset (systems g and w, axes x, y, z) defaults to 0.
pub proof fn law_default_offsets(c: u8, l: u8)
    requires
        c == 0x67u8 || c == 0x77u8,
        l == 0x78u8 || l == 0x79u8 || l == 0x7au8,
    ensures
        lookup(default_entries(), cs_text(c, l)) == Some(BITS_ZERO),
{
    let n: int = 12 + (if c == 0x67u8 {
        0int
    } else {
        3
    }) + (l - 0x78u8);
    assert(cs_text(c, l) =~= entry_key(n));
    lemma_lookup_default(n);
}

/// The default motor settings of motors 0 to 6: current 30, microstep 32,
/// stall threshold 2; 200 steps per unit, inverted (-200) on motors 1 and
/// 2, 6400 on the wire spool (motor 5) and 203.8 on the wire feed (motor 6).
pub proof fn law_default_motors(m: int)
    requires
        0 <= m < N_MOTORS,
    ensures
        lookup(default_entries(), motor_text((0x30 + m) as u8, seq![0x63u8, 0x75u8, 0x72u8, 0x72u8, 0x65u8, 0x6eu8, 0x74u8])) == Some(BITS_MOTOR_CURRENT),
        lookup(default_entries(), motor_text((0x30 + m) as u8, seq![0x6du8, 0x69u8, 0x63u8, 0x72u8, 0x6fu8, 0x73u8, 0x74u8, 0x65u8, 0x70u8])) == Some(
            BITS_MOTOR_MICROSTEP,
        ),
        lookup(default_entries(), motor_text((0x30 + m) as u8, seq![0x74u8, 0x68u8, 0x72u8, 0x65u8, 0x73u8, 0x68u8])) == Some(BITS_TWO),
        lookup(default_entries(), motor_text((0x30 + m) as u8, seq![0x75u8, 0x6eu8, 0x69u8, 0x74u8, 0x73u8, 0x74u8, 0x65u8, 0x70u8, 0x73u8])) == Some(
            if m == 1 || m == 2 {
                BITS_UNITSTEPS_INVERTED
            } else if m == 5 {
                BITS_UNITSTEPS_SPOOL
            } else if m == 6 {
                BITS_UNITSTEPS_FEED
            } else {
                BITS_UNITSTEPS
            },
        ),
{
    assert(motor_text((0x30 + m) as u8, seq![0x63u8, 0x75u8, 0x72u8, 0x72u8, 0x65u8, 0x6eu8, 0x74u8]) =~= entry_key(18 + m * 4));
    assert(motor_text((0x30 + m) as u8, seq![0x6du8, 0x69u8, 0x63u8, 0x72u8, 0x6fu8, 0x73u8, 0x74u8, 0x65u8, 0x70u8]) =~= entry_key(18 + m * 4 + 1));
    assert(motor_text((0x30 + m) as u8, seq![0x74u8, 0x68u8, 0x72u8, 0x65u8, 0x73u8, 0x68u8]) =~= entry_key(18 + m * 4 + 2));
    assert(motor_text((0x30 + m) as u8, seq![0x75u8, 0x6eu8, 0x69u8, 0x74u8, 0x73u8, 0x74u8, 0x65u8, 0x70u8, 0x73u8]) =~= entry_key(18 + m * 4 + 3));
    lemma_lookup_default(18 + m * 4);
    lemma_lookup_default(18 + m * 4 + 1);
    lemma_lookup_default(18 + m * 4 + 2);
    lemma_lookup_default(18 + m * 4 + 3);
}

} // verus!
