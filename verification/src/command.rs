//! Parser for one line from the host: a signal (`!`, `?...`), a G-code line,
//! or a text command (`set`, `get`, `stat`, `fset`).
//!
//! Number-valued fields (`set` values and the `ov.edm.*` overrides) are kept
//! as the word written by the host, once it is known to read as a finite
//! binary32 value inside the field's range: a threshold in `[0, 1]`, a speed
//! above 0 (see [`crate::decimal`]). Their conversion to floating point
//! belongs to the caller.

use vstd::prelude::*;

use crate::bytes::{
    bang, copy_range, is_bang, is_k_adv_speed, is_k_adv_thresh, is_k_pump_en, is_k_retr_speed,
    is_k_retr_thresh, is_q_edm, is_q_pos, is_q_queue, is_w_false, is_w_fset, is_w_get, is_w_none,
    is_w_set, is_w_stat, is_w_true, k_adv_speed, k_adv_thresh, k_pump_en, k_retr_speed,
    k_retr_thresh, lemma_ascii_boundary, q_edm, q_pos, q_queue, str_from_utf8, w_false, w_fset, w_get, w_none, w_set, w_stat,
    w_true,
};
use crate::decimal::{finite_value, is_finite_word, is_positive_word, is_unit_word, positive_value, unit_value};
use crate::gcode;
use crate::hvec::{key_bytes, key_from_str};
use crate::settings::STG_KEY_CAP;
use crate::words::{is_ws, spans_delimited, spans_match, split_words, words};
use vstd::slice::slice_subrange;
use vstd::string::StringSliceAdditionalSpecFns;

verus! {

/// Query-like signal (`?...`).
#[derive(Clone, Copy, Debug, PartialEq, Eq, Structural)]
pub enum QuerySignal {
    Queue,
    Pos,
    Edm,
    /// Recognized `?` byte but unknown content.
    Unknown,
}

/// `fset <key> <value>`. An `ov.edm.*` value is `None` for the word `none`,
/// else the value word as written.
#[derive(Clone, Debug, PartialEq)]
pub enum FastKey {
    /// `ov.pump_en`: true forces the pump on; false lets G-code control it.
    PumpEn(bool),
    /// `ov.edm.retr_thresh`
    EdmRetrThresh(Option<Vec<u8>>),
    /// `ov.edm.adv_thresh`
    EdmAdvThresh(Option<Vec<u8>>),
    /// `ov.edm.retr_speed`
    EdmRetrSpeed(Option<Vec<u8>>),
    /// `ov.edm.adv_speed`
    EdmAdvSpeed(Option<Vec<u8>>),
}

#[derive(Clone, Debug, PartialEq)]
pub enum Command {
    Gcode(gcode::Parsed),
    /// `set <key> <value>`: key (at most `STG_KEY_CAP` bytes) and value word.
    SetValue(heapless::String<20>, Vec<u8>),
    /// `get`: dump all settings.
    Get,
    /// `stat`: dump per-module debug status.
    Stat,
}

impl Command {
    /// Whether the command changes machine state (only `get` and `stat` do not).
    pub fn is_write(&self) -> (r: bool)
        ensures
            r == !(self is Get || self is Stat),
    {
        match self {
            Command::Get => false,
            Command::Stat => false,
            _ => true,
        }
    }
}

/// Canonical parsed representation of a single line from the host.
#[derive(Clone, Debug, PartialEq)]
pub enum Parsed {
    /// `!`
    Cancel,
    /// `?...`
    Query(QuerySignal),
    /// `fset <key> <val>`
    FastSet(FastKey),
    Command(Command),
    Error,
}

pub enum FastKeyV {
    PumpEn(bool),
    EdmRetrThresh(Option<Seq<u8>>),
    EdmAdvThresh(Option<Seq<u8>>),
    EdmRetrSpeed(Option<Seq<u8>>),
    EdmAdvSpeed(Option<Seq<u8>>),
}

pub enum CommandV {
    Gcode(gcode::ParsedV),
    SetValue(Seq<u8>, Seq<u8>),
    Get,
    Stat,
}

pub enum ParsedV {
    Cancel,
    Query(QuerySignal),
    FastSet(FastKeyV),
    Command(CommandV),
    Error,
}

pub open spec fn word_view(o: Option<Vec<u8>>) -> Option<Seq<u8>> {
    match o {
        Some(v) => Some(v@),
        None => None,
    }
}

impl View for FastKey {
    type V = FastKeyV;

    open spec fn view(&self) -> FastKeyV {
        match self {
            FastKey::PumpEn(b) => FastKeyV::PumpEn(*b),
            FastKey::EdmRetrThresh(v) => FastKeyV::EdmRetrThresh(word_view(*v)),
            FastKey::EdmAdvThresh(v) => FastKeyV::EdmAdvThresh(word_view(*v)),
            FastKey::EdmRetrSpeed(v) => FastKeyV::EdmRetrSpeed(word_view(*v)),
            FastKey::EdmAdvSpeed(v) => FastKeyV::EdmAdvSpeed(word_view(*v)),
        }
    }
}

impl View for Command {
    type V = CommandV;

    open spec fn view(&self) -> CommandV {
        match self {
            Command::Gcode(g) => CommandV::Gcode(g@),
            Command::SetValue(k, v) => CommandV::SetValue(key_bytes(*k), v@),
            Command::Get => CommandV::Get,
            Command::Stat => CommandV::Stat,
        }
    }
}

impl View for Parsed {
    type V = ParsedV;

    open spec fn view(&self) -> ParsedV {
        match self {
            Parsed::Cancel => ParsedV::Cancel,
            Parsed::Query(q) => ParsedV::Query(*q),
            Parsed::FastSet(f) => ParsedV::FastSet(f@),
            Parsed::Command(c) => ParsedV::Command(c@),
            Parsed::Error => ParsedV::Error,
        }
    }
}

// ---------------------------------------------------------------------------
// Meaning of a line
// ---------------------------------------------------------------------------

pub open spec fn query_of(b: Seq<u8>) -> QuerySignal {
    if b == q_queue() {
        QuerySignal::Queue
    } else if b == q_pos() {
        QuerySignal::Pos
    } else if b == q_edm() {
        QuerySignal::Edm
    } else {
        QuerySignal::Unknown
    }
}

/// An `ov.edm.*` threshold: `none`, or a word that reads as a value in `[0, 1]`.
pub open spec fn thresh_of(v: Seq<u8>) -> Option<Option<Seq<u8>>> {
    if v == w_none() {
        Some(None)
    } else if unit_value(v) {
        Some(Some(v))
    } else {
        None
    }
}

/// An `ov.edm.*` speed: `none`, or a word that reads as a finite value above 0.
pub open spec fn speed_of(v: Seq<u8>) -> Option<Option<Seq<u8>>> {
    if v == w_none() {
        Some(None)
    } else if positive_value(v) {
        Some(Some(v))
    } else {
        None
    }
}

pub open spec fn fset_of(key: Seq<u8>, val: Seq<u8>) -> Option<FastKeyV> {
    if key == k_pump_en() {
        if val == w_true() {
            Some(FastKeyV::PumpEn(true))
        } else if val == w_false() {
            Some(FastKeyV::PumpEn(false))
        } else {
            None
        }
    } else if key == k_retr_thresh() {
        match thresh_of(val) {
            Some(v) => Some(FastKeyV::EdmRetrThresh(v)),
            None => None,
        }
    } else if key == k_adv_thresh() {
        match thresh_of(val) {
            Some(v) => Some(FastKeyV::EdmAdvThresh(v)),
            None => None,
        }
    } else if key == k_retr_speed() {
        match speed_of(val) {
            Some(v) => Some(FastKeyV::EdmRetrSpeed(v)),
            None => None,
        }
    } else if key == k_adv_speed() {
        match speed_of(val) {
            Some(v) => Some(FastKeyV::EdmAdvSpeed(v)),
            None => None,
        }
    } else {
        None
    }
}

/// Text commands: the line must be UTF-8; `set` and `fset` take exactly a key
/// and a value word (for `set`, one that reads as a finite value), `get` and
/// `stat` take nothing.
pub open spec fn text_of(b: Seq<u8>) -> Option<ParsedV> {
    let w = words(b);
    if !vstd::utf8::valid_utf8(b) || w.len() == 0 {
        None
    } else if w[0] == w_set() {
        if w.len() == 3 && w[1].len() <= STG_KEY_CAP && finite_value(w[2]) {
            Some(ParsedV::Command(CommandV::SetValue(w[1], w[2])))
        } else {
            None
        }
    } else if w[0] == w_get() {
        if w.len() == 1 {
            Some(ParsedV::Command(CommandV::Get))
        } else {
            None
        }
    } else if w[0] == w_stat() {
        if w.len() == 1 {
            Some(ParsedV::Command(CommandV::Stat))
        } else {
            None
        }
    } else if w[0] == w_fset() {
        if w.len() == 3 {
            match fset_of(w[1], w[2]) {
                Some(f) => Some(ParsedV::FastSet(f)),
                None => None,
            }
        } else {
            None
        }
    } else {
        None
    }
}

/// What a line from the host means.
pub open spec fn spec_parse(b: Seq<u8>) -> ParsedV {
    if b.len() > 0 && (b[0] == 0x21u8 || b[0] == 0x3fu8) {
        if b == bang() {
            ParsedV::Cancel
        } else {
            ParsedV::Query(query_of(b))
        }
    } else if b.len() > 0 && (b[0] == 0x47u8 || b[0] == 0x4du8) {
        match gcode::spec_parse(b) {
            Some(g) => ParsedV::Command(CommandV::Gcode(g)),
            None => ParsedV::Error,
        }
    } else {
        match text_of(b) {
            Some(p) => p,
            None => ParsedV::Error,
        }
    }
}

// ---------------------------------------------------------------------------
// Parser
// ---------------------------------------------------------------------------

fn parse_query(b: &[u8]) -> (q: QuerySignal)
    ensures
        q == query_of(b@),
{
    if is_q_queue(b) {
        QuerySignal::Queue
    } else if is_q_pos(b) {
        QuerySignal::Pos
    } else if is_q_edm(b) {
        QuerySignal::Edm
    } else {
        QuerySignal::Unknown
    }
}

/// `none`, or a checked value word (`speed` picks the check).
fn parse_override(v: &[u8], speed: bool) -> (r: Option<Option<Vec<u8>>>)
    ensures
        match (if speed { speed_of(v@) } else { thresh_of(v@) }) {
            None => r.is_none(),
            Some(o) => r.is_some() && word_view(r.unwrap()) == o,
        },
{
    if is_w_none(v) {
        Some(None)
    } else if (if speed { is_positive_word(v) } else { is_unit_word(v) }) {
        Some(Some(slice_to_vec_u8(v)))
    } else {
        None
    }
}

fn slice_to_vec_u8(v: &[u8]) -> (r: Vec<u8>)
    ensures
        r@ == v@,
{
    let r = copy_range(v, 0, v.len());
    assert(v@.subrange(0, v@.len() as int) =~= v@);
    r
}

fn parse_fset(key: &[u8], val: &[u8]) -> (r: Option<FastKey>)
    ensures
        match fset_of(key@, val@) {
            None => r.is_none(),
            Some(f) => r.is_some() && r.unwrap()@ == f,
        },
{
    if is_k_pump_en(key) {
        if is_w_true(val) {
            Some(FastKey::PumpEn(true))
        } else if is_w_false(val) {
            Some(FastKey::PumpEn(false))
        } else {
            None
        }
    } else if is_k_retr_thresh(key) {
        match parse_override(val, false) {
            Some(v) => Some(FastKey::EdmRetrThresh(v)),
            None => None,
        }
    } else if is_k_adv_thresh(key) {
        match parse_override(val, false) {
            Some(v) => Some(FastKey::EdmAdvThresh(v)),
            None => None,
        }
    } else if is_k_retr_speed(key) {
        match parse_override(val, true) {
            Some(v) => Some(FastKey::EdmRetrSpeed(v)),
            None => None,
        }
    } else if is_k_adv_speed(key) {
        match parse_override(val, true) {
            Some(v) => Some(FastKey::EdmAdvSpeed(v)),
            None => None,
        }
    } else {
        None
    }
}

fn parse_text(b: &[u8]) -> (r: Option<Parsed>)
    ensures
        match text_of(b@) {
            None => r.is_none(),
            Some(p) => r.is_some() && r.unwrap()@ == p,
        },
{
    let text = match str_from_utf8(b) {
        Some(t) => t,
        None => return None,
    };
    let spans = split_words(b);
    let ghost w = words(b@);
    if spans.len() == 0 {
        return None;
    }
    let (a0, b0) = spans[0];
    let first = slice_subrange(b, a0, b0);
    assert(first@ == w[0]);
    if is_w_set(first) || is_w_fset(first) {
        if spans.len() != 3 {
            return None;
        }
        let (a1, b1) = spans[1];
        let (a2, b2) = spans[2];
        let key = slice_subrange(b, a1, b1);
        let val = slice_subrange(b, a2, b2);
        assert(key@ == w[1]);
        assert(val@ == w[2]);
        if is_w_set(first) {
            if key.len() > STG_KEY_CAP || !is_finite_word(val) {
                return None;
            }
            proof {
                // the key is cut out of the text at blanks or its ends
                assert(spans@[1].1 == b1 && spans@[1].0 == a1);
                lemma_ascii_boundary(b@, b1 as int);
            }
            let (left, _) = text.split_at(b1);
            proof {
                vstd::utf8::encode_utf8_valid_utf8(left@);
                if a1 > 0 {
                    assert(left.spec_bytes()[a1 - 1] == b@[a1 - 1]);
                }
                lemma_ascii_boundary(left.spec_bytes(), a1 as int);
            }
            let (_, key_text) = left.split_at(a1);
            assert(key_text.spec_bytes() =~= key@);
            let k = match key_from_str(key_text) {
                Some(k) => k,
                None => return None,
            };
            return Some(Parsed::Command(Command::SetValue(k, slice_to_vec_u8(val))));
        }
        return match parse_fset(key, val) {
            Some(f) => Some(Parsed::FastSet(f)),
            None => None,
        };
    }
    if is_w_get(first) {
        return if spans.len() == 1 {
            Some(Parsed::Command(Command::Get))
        } else {
            None
        };
    }
    if is_w_stat(first) {
        return if spans.len() == 1 {
            Some(Parsed::Command(Command::Stat))
        } else {
            None
        };
    }
    None
}

/// Parse one line from the host (without its line terminator).
pub fn parse(bytes: &[u8]) -> (r: Parsed)
    ensures
        r@ == spec_parse(bytes@),
{
    if bytes.len() > 0 && (bytes[0] == 0x21u8 || bytes[0] == 0x3fu8) {
        if is_bang(bytes) {
            return Parsed::Cancel;
        }
        return Parsed::Query(parse_query(bytes));
    }
    if bytes.len() > 0 && (bytes[0] == 0x47u8 || bytes[0] == 0x4du8) {
        return match gcode::parse(bytes) {
            Some(g) => Parsed::Command(Command::Gcode(g)),
            None => Parsed::Error,
        };
    }
    match parse_text(bytes) {
        Some(p) => p,
        None => Parsed::Error,
    }
}

/// A line starting with `!` or `?` is a signal: exactly `!` cancels;
/// `?queue`, `?pos` and `?edm` ask for the queue, the position and the EDM
/// state; any other such line is an unknown query.
pub proof fn law_signals(b: Seq<u8>)
    requires
        b.len() > 0,
        b[0] == 0x21u8 || b[0] == 0x3fu8,
    ensures
        b == seq![0x21u8] ==> spec_parse(b) == ParsedV::Cancel,
        b == seq![0x3fu8, 0x71u8, 0x75u8, 0x65u8, 0x75u8, 0x65u8] ==> spec_parse(b) == ParsedV::Query(QuerySignal::Queue),
        b == seq![0x3fu8, 0x70u8, 0x6fu8, 0x73u8] ==> spec_parse(b) == ParsedV::Query(QuerySignal::Pos),
        b == seq![0x3fu8, 0x65u8, 0x64u8, 0x6du8] ==> spec_parse(b) == ParsedV::Query(QuerySignal::Edm),
        b != seq![0x21u8] && b != seq![0x3fu8, 0x71u8, 0x75u8, 0x65u8, 0x75u8, 0x65u8] && b != seq![0x3fu8, 0x70u8, 0x6fu8, 0x73u8] && b != seq![0x3fu8, 0x65u8, 0x64u8, 0x6du8] ==> spec_parse(b)
            == ParsedV::Query(QuerySignal::Unknown),
{
    assert(bang() =~= seq![0x21u8]);
    assert(q_queue() =~= seq![0x3fu8, 0x71u8, 0x75u8, 0x65u8, 0x75u8, 0x65u8]);
    assert(q_pos() =~= seq![0x3fu8, 0x70u8, 0x6fu8, 0x73u8]);
    assert(q_edm() =~= seq![0x3fu8, 0x65u8, 0x64u8, 0x6du8]);
}

/// The fast settings: `ov.pump_en` takes `true` or `false`; each
/// `ov.edm.*` key sets its own override, to `none` or to a checked value
/// word (a threshold in `[0, 1]`, a speed above 0); anything else is refused.
pub proof fn law_fast_settings(v: Seq<u8>)
    ensures
        fset_of(seq![0x6fu8, 0x76u8, 0x2eu8, 0x70u8, 0x75u8, 0x6du8, 0x70u8, 0x5fu8, 0x65u8, 0x6eu8], v) == (if v == seq![0x74u8, 0x72u8, 0x75u8, 0x65u8] {
            Some(FastKeyV::PumpEn(true))
        } else if v == seq![0x66u8, 0x61u8, 0x6cu8, 0x73u8, 0x65u8] {
            Some(FastKeyV::PumpEn(false))
        } else {
            None
        }),
        fset_of(seq![0x6fu8, 0x76u8, 0x2eu8, 0x65u8, 0x64u8, 0x6du8, 0x2eu8, 0x72u8, 0x65u8, 0x74u8, 0x72u8, 0x5fu8, 0x74u8, 0x68u8, 0x72u8, 0x65u8, 0x73u8, 0x68u8], v) == (if v == seq![0x6eu8, 0x6fu8, 0x6eu8, 0x65u8] {
            Some(FastKeyV::EdmRetrThresh(None))
        } else if unit_value(v) {
            Some(FastKeyV::EdmRetrThresh(Some(v)))
        } else {
            None
        }),
        fset_of(seq![0x6fu8, 0x76u8, 0x2eu8, 0x65u8, 0x64u8, 0x6du8, 0x2eu8, 0x61u8, 0x64u8, 0x76u8, 0x5fu8, 0x74u8, 0x68u8, 0x72u8, 0x65u8, 0x73u8, 0x68u8], v) == (if v == seq![0x6eu8, 0x6fu8, 0x6eu8, 0x65u8] {
            Some(FastKeyV::EdmAdvThresh(None))
        } else if unit_value(v) {
            Some(FastKeyV::EdmAdvThresh(Some(v)))
        } else {
            None
        }),
        fset_of(seq![0x6fu8, 0x76u8, 0x2eu8, 0x65u8, 0x64u8, 0x6du8, 0x2eu8, 0x72u8, 0x65u8, 0x74u8, 0x72u8, 0x5fu8, 0x73u8, 0x70u8, 0x65u8, 0x65u8, 0x64u8], v) == (if v == seq![0x6eu8, 0x6fu8, 0x6eu8, 0x65u8] {
            Some(FastKeyV::EdmRetrSpeed(None))
        } else if positive_value(v) {
            Some(FastKeyV::EdmRetrSpeed(Some(v)))
        } else {
            None
        }),
        fset_of(seq![0x6fu8, 0x76u8, 0x2eu8, 0x65u8, 0x64u8, 0x6du8, 0x2eu8, 0x61u8, 0x64u8, 0x76u8, 0x5fu8, 0x73u8, 0x70u8, 0x65u8, 0x65u8, 0x64u8], v) == (if v == seq![0x6eu8, 0x6fu8, 0x6eu8, 0x65u8] {
            Some(FastKeyV::EdmAdvSpeed(None))
        } else if positive_value(v) {
            Some(FastKeyV::EdmAdvSpeed(Some(v)))
        } else {
            None
        }),
{
    assert(k_pump_en() =~= seq![0x6fu8, 0x76u8, 0x2eu8, 0x70u8, 0x75u8, 0x6du8, 0x70u8, 0x5fu8, 0x65u8, 0x6eu8]);
    assert(k_retr_thresh() =~= seq![0x6fu8, 0x76u8, 0x2eu8, 0x65u8, 0x64u8, 0x6du8, 0x2eu8, 0x72u8, 0x65u8, 0x74u8, 0x72u8, 0x5fu8, 0x74u8, 0x68u8, 0x72u8, 0x65u8, 0x73u8, 0x68u8]);
    assert(k_adv_thresh() =~= seq![0x6fu8, 0x76u8, 0x2eu8, 0x65u8, 0x64u8, 0x6du8, 0x2eu8, 0x61u8, 0x64u8, 0x76u8, 0x5fu8, 0x74u8, 0x68u8, 0x72u8, 0x65u8, 0x73u8, 0x68u8]);
    assert(k_retr_speed() =~= seq![0x6fu8, 0x76u8, 0x2eu8, 0x65u8, 0x64u8, 0x6du8, 0x2eu8, 0x72u8, 0x65u8, 0x74u8, 0x72u8, 0x5fu8, 0x73u8, 0x70u8, 0x65u8, 0x65u8, 0x64u8]);
    assert(k_adv_speed() =~= seq![0x6fu8, 0x76u8, 0x2eu8, 0x65u8, 0x64u8, 0x6du8, 0x2eu8, 0x61u8, 0x64u8, 0x76u8, 0x5fu8, 0x73u8, 0x70u8, 0x65u8, 0x65u8, 0x64u8]);
    assert(w_true() =~= seq![0x74u8, 0x72u8, 0x75u8, 0x65u8]);
    assert(w_false() =~= seq![0x66u8, 0x61u8, 0x6cu8, 0x73u8, 0x65u8]);
    assert(w_none() =~= seq![0x6eu8, 0x6fu8, 0x6eu8, 0x65u8]);
}

/// The text commands: `get` and `stat` alone dump the settings and the
/// status; `set <key> <value>` writes a key of at most `STG_KEY_CAP` bytes
/// with a value word that reads as a finite number.
pub proof fn law_text_commands(b: Seq<u8>)
    requires
        vstd::utf8::valid_utf8(b),
    ensures
        words(b) == seq![seq![0x67u8, 0x65u8, 0x74u8]] ==> text_of(b) == Some(ParsedV::Command(CommandV::Get)),
        words(b) == seq![seq![0x73u8, 0x74u8, 0x61u8, 0x74u8]] ==> text_of(b) == Some(ParsedV::Command(CommandV::Stat)),
        words(b).len() == 3 && words(b)[0] == seq![0x73u8, 0x65u8, 0x74u8] && words(b)[1].len() <= STG_KEY_CAP
            && finite_value(words(b)[2]) ==> text_of(b) == Some(
            ParsedV::Command(CommandV::SetValue(words(b)[1], words(b)[2])),
        ),
        words(b).len() >= 1 && words(b)[0] == seq![0x73u8, 0x65u8, 0x74u8] && !finite_value(words(b)[words(b).len() - 1])
            ==> text_of(b) is None,
{
    assert(w_get() =~= seq![0x67u8, 0x65u8, 0x74u8]);
    assert(w_stat() =~= seq![0x73u8, 0x74u8, 0x61u8, 0x74u8]);
    assert(w_set() =~= seq![0x73u8, 0x65u8, 0x74u8]);
    assert(w_fset() =~= seq![0x66u8, 0x73u8, 0x65u8, 0x74u8]);
    assert(seq![0x73u8, 0x65u8, 0x74u8] != seq![0x67u8, 0x65u8, 0x74u8] && seq![0x73u8, 0x65u8, 0x74u8] != seq![0x73u8, 0x74u8, 0x61u8, 0x74u8]);
}

} // verus!
