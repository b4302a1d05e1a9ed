//! Fixed-capacity containers from `heapless` (byte buffers, settings-key
//! strings and the settings map), with the contracts this crate relies on.
//! Each container type used by the crate has its own name for what it holds.

use vstd::prelude::*;
use vstd::string::StringSliceAdditionalSpecFns;

use crate::command::{FastKey, FastKeyV};

verus! {

/// `heapless::Vec`, held opaque; its contents are given by the names below.
#[verifier::external_type_specification]
#[verifier::external_body]
#[verifier::reject_recursive_types(T)]
pub struct ExHeaplessVec<T, const N: usize>(heapless::Vec<T, N>);

/// The bytes held by a line-assembly buffer (capacity 128).
pub uninterp spec fn frame_bytes(v: heapless::Vec<u8, 128>) -> Seq<u8>;

/// `heapless::Vec::new`: an empty buffer.
#[verifier::external_body]
pub(crate) fn frame_new() -> (v: heapless::Vec<u8, 128>)
    ensures
        frame_bytes(v) == Seq::<u8>::empty(),
{
    heapless::Vec::new()
}

/// `heapless::Vec::push`: appends when fewer than 128 bytes are held;
/// otherwise reports failure and leaves the buffer unchanged.
#[verifier::external_body]
pub(crate) fn frame_push(v: &mut heapless::Vec<u8, 128>, b: u8) -> (ok: bool)
    ensures
        frame_bytes(*old(v)).len() <= 128,
        ok == (frame_bytes(*old(v)).len() < 128),
        ok ==> frame_bytes(*final(v)) == frame_bytes(*old(v)).push(b),
        !ok ==> frame_bytes(*final(v)) == frame_bytes(*old(v)),
{
    v.push(b).is_ok()
}

/// `heapless::Vec::pop`: removes the last byte, if any.
#[verifier::external_body]
pub(crate) fn frame_pop(v: &mut heapless::Vec<u8, 128>)
    ensures
        frame_bytes(*old(v)).len() > 0 ==> frame_bytes(*final(v)) == frame_bytes(
            *old(v),
        ).drop_last(),
        frame_bytes(*old(v)).len() == 0 ==> frame_bytes(*final(v)) == frame_bytes(*old(v)),
{
    let _ = v.pop();
}

/// `heapless::Vec::clear`: removes every byte.
#[verifier::external_body]
pub(crate) fn frame_clear(v: &mut heapless::Vec<u8, 128>)
    ensures
        frame_bytes(*final(v)) == Seq::<u8>::empty(),
{
    v.clear()
}

/// `heapless::Vec::len` (through its slice): the number of bytes held, at most 128.
#[verifier::external_body]
pub(crate) fn frame_len(v: &heapless::Vec<u8, 128>) -> (n: usize)
    ensures
        n == frame_bytes(*v).len(),
        n <= 128,
{
    v.len()
}

/// `heapless::Vec::as_slice`: the bytes held.
#[verifier::external_body]
pub(crate) fn frame_as_slice(v: &heapless::Vec<u8, 128>) -> (s: &[u8])
    ensures
        s@ == frame_bytes(*v),
{
    v.as_slice()
}

} // verus!

verus! {

/// The bytes held by a p-state line buffer (capacity 2000).
pub uninterp spec fn pline_bytes(v: heapless::Vec<u8, 2000>) -> Seq<u8>;

/// `heapless::Vec::new`: an empty buffer.
#[verifier::external_body]
pub(crate) fn pline_new() -> (v: heapless::Vec<u8, 2000>)
    ensures
        pline_bytes(v) == Seq::<u8>::empty(),
{
    heapless::Vec::new()
}

/// `heapless::Vec::extend_from_slice`: appends all of `b` when the result holds
/// at most 2000 bytes; otherwise reports failure and leaves the buffer unchanged.
#[verifier::external_body]
pub(crate) fn pline_extend(v: &mut heapless::Vec<u8, 2000>, b: &[u8]) -> (ok: bool)
    ensures
        pline_bytes(*old(v)).len() <= 2000,
        ok == (pline_bytes(*old(v)).len() + b@.len() <= 2000),
        ok ==> pline_bytes(*final(v)) == pline_bytes(*old(v)) + b@,
        !ok ==> pline_bytes(*final(v)) == pline_bytes(*old(v)),
{
    v.extend_from_slice(b).is_ok()
}

/// `heapless::Vec::as_slice`: the bytes held.
#[verifier::external_body]
pub(crate) fn pline_as_slice(v: &heapless::Vec<u8, 2000>) -> (s: &[u8])
    ensures
        s@ == pline_bytes(*v),
{
    v.as_slice()
}

} // verus!

verus! {

/// `heapless::String`, held opaque; see [`key_bytes`].
#[verifier::external_type_specification]
#[verifier::external_body]
pub struct ExHeaplessString<const N: usize>(heapless::String<N>);

/// `heapless::LinearMap`, held opaque; see [`map_entries`].
#[verifier::external_type_specification]
#[verifier::external_body]
#[verifier::reject_recursive_types(K)]
#[verifier::reject_recursive_types(V)]
pub struct ExHeaplessLinearMap<K, V, const N: usize>(heapless::LinearMap<K, V, N>);

/// `Clone` of `heapless::String`: callable on keys; nothing is claimed of
/// the copy here.
pub assume_specification<const N: usize>[ <heapless::String<N> as Clone>::clone ](
    s: &heapless::String<N>,
) -> heapless::String<N>;

/// The bytes of a settings key string (capacity 20).
pub uninterp spec fn key_bytes(k: heapless::String<20>) -> Seq<u8>;

/// `heapless::String::try_from(&str)`: a key holding the bytes of `s`, when
/// they fit in 20 bytes.
#[verifier::external_body]
pub(crate) fn key_from_str(s: &str) -> (r: Option<heapless::String<20>>)
    ensures
        r is Some <==> s.spec_bytes().len() <= 20,
        r matches Some(k) ==> key_bytes(k) == s.spec_bytes(),
{
    heapless::String::try_from(s).ok()
}

/// `heapless::String::new`: an empty key.
#[verifier::external_body]
pub(crate) fn key_new() -> (k: heapless::String<20>)
    ensures
        key_bytes(k) == Seq::<u8>::empty(),
{
    heapless::String::new()
}

/// `heapless::String::push` of an ASCII character (one byte of UTF-8):
/// appends it when fewer than 20 bytes are held; otherwise reports failure and
/// leaves the key unchanged.
#[verifier::external_body]
pub(crate) fn key_push(k: &mut heapless::String<20>, c: u8) -> (ok: bool)
    requires
        c < 0x80,
    ensures
        key_bytes(*old(k)).len() <= 20,
        ok == (key_bytes(*old(k)).len() < 20),
        ok ==> key_bytes(*final(k)) == key_bytes(*old(k)).push(c),
        !ok ==> key_bytes(*final(k)) == key_bytes(*old(k)),
{
    k.push(c as char).is_ok()
}

/// Keys and values of a settings map (capacity 64), in storage order.
pub uninterp spec fn map_entries(m: heapless::LinearMap<heapless::String<20>, u32, 64>) -> Seq<(Seq<u8>, u32)>;

/// The position of the first entry with key `k`, or -1.
pub open spec fn key_index(es: Seq<(Seq<u8>, u32)>, k: Seq<u8>) -> int
    decreases es.len(),
{
    if es.len() == 0 {
        -1
    } else {
        let i = key_index(es.drop_last(), k);
        if i >= 0 {
            i
        } else if es.last().0 == k {
            es.len() - 1
        } else {
            -1
        }
    }
}

/// `heapless::LinearMap::new`: an empty map.
#[verifier::external_body]
pub(crate) fn map_new() -> (m: heapless::LinearMap<heapless::String<20>, u32, 64>)
    ensures
        map_entries(m) == Seq::<(Seq<u8>, u32)>::empty(),
{
    heapless::LinearMap::new()
}

/// `heapless::LinearMap::insert`: when an entry has the key (compared byte for
/// byte), its value is replaced in place and the old value returned; otherwise
/// the entry is appended when fewer than 64 are held, or handed back unchanged.
#[verifier::external_body]
pub(crate) fn map_insert(
    m: &mut heapless::LinearMap<heapless::String<20>, u32, 64>,
    k: heapless::String<20>,
    v: u32,
) -> (r: Result<Option<u32>, (heapless::String<20>, u32)>)
    ensures
        map_entries(*old(m)).len() <= 64,
        ({
            let es = map_entries(*old(m));
            let i = key_index(es, key_bytes(k));
            &&& i >= 0 ==> map_entries(*final(m)) == es.update(i, (key_bytes(k), v)) && r == Ok::<
                Option<u32>,
                (heapless::String<20>, u32),
            >(Some(es[i].1))
            &&& i < 0 && es.len() < 64 ==> map_entries(*final(m)) == es.push((key_bytes(k), v))
                && r == Ok::<Option<u32>, (heapless::String<20>, u32)>(None)
            &&& i < 0 && es.len() >= 64 ==> map_entries(*final(m)) == es && r is Err
        }),
{
    m.insert(k, v)
}

/// `heapless::LinearMap::iter`: every entry in storage order, each key given as its bytes.
#[verifier::external_body]
pub(crate) fn map_iter(m: &heapless::LinearMap<heapless::String<20>, u32, 64>) -> (r: Vec<(Vec<u8>, u32)>)
    ensures
        r@.len() == map_entries(*m).len(),
        forall|i: int|
            0 <= i < r@.len() ==> (#[trigger] r@[i]).0@ == map_entries(*m)[i].0 && r@[i].1
                == map_entries(*m)[i].1,
{
    m.iter().map(|(k, v)| (k.as_bytes().to_vec(), *v)).collect()
}

/// The fast settings held by a tick's batch (capacity 8), by their views.
pub uninterp spec fn fastset_keys(v: heapless::Vec<FastKey, 8>) -> Seq<FastKeyV>;

/// `heapless::Vec::new`: an empty batch.
#[verifier::external_body]
pub(crate) fn fastsets_new() -> (v: heapless::Vec<FastKey, 8>)
    ensures
        fastset_keys(v) == Seq::<FastKeyV>::empty(),
{
    heapless::Vec::new()
}

/// `heapless::Vec::push`: appends when fewer than 8 settings are held;
/// otherwise hands the setting back (it is dropped) and leaves the batch unchanged.
#[verifier::external_body]
pub(crate) fn fastsets_push(v: &mut heapless::Vec<FastKey, 8>, k: FastKey) -> (ok: bool)
    ensures
        fastset_keys(*old(v)).len() <= 8,
        ok == (fastset_keys(*old(v)).len() < 8),
        ok ==> fastset_keys(*final(v)) == fastset_keys(*old(v)).push(k@),
        !ok ==> fastset_keys(*final(v)) == fastset_keys(*old(v)),
{
    v.push(k).is_ok()
}

/// `heapless::Vec::clear`: removes every setting.
#[verifier::external_body]
pub(crate) fn fastsets_clear(v: &mut heapless::Vec<FastKey, 8>)
    ensures
        fastset_keys(*final(v)) == Seq::<FastKeyV>::empty(),
{
    v.clear()
}

} // verus!
