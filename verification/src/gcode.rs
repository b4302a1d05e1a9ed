//! G-code line parser.
//!
//! A line is a command word (`G0`, `G38.3`, `M10`, ...) followed by parameter
//! words (`X12.3`, `P500`, ...), all separated by blanks. Numbers are kept as
//! the decimal text of the line, checked against the number grammar; turning
//! them into binary floating point is left to the caller.

use vstd::prelude::*;

use crate::bytes::copy_range;
use crate::coords::{Axis, CoordSys};
use crate::words::{span_word, spans_match, split_words, words};

verus! {

// ---------------------------------------------------------------------------
// Grammar
// ---------------------------------------------------------------------------

pub open spec fn is_digit(b: u8) -> bool {
    0x30u8 <= b <= 0x39u8
}

pub open spec fn is_upper(b: u8) -> bool {
    0x41u8 <= b <= 0x5au8
}

/// A non-empty run of decimal digits.
pub open spec fn is_digits(s: Seq<u8>) -> bool {
    s.len() > 0 && forall|i: int| 0 <= i < s.len() ==> is_digit(#[trigger] s[i])
}

/// The value of a run of decimal digits.
pub open spec fn digits_value(s: Seq<u8>) -> nat
    decreases s.len(),
{
    if s.len() == 0 {
        0
    } else {
        10 * digits_value(s.drop_last()) + (s.last() - 0x30u8) as nat
    }
}

/// `t` without its leading `+` or `-`, if any.
pub open spec fn number_body(t: Seq<u8>) -> Seq<u8> {
    if t.len() > 0 && (t[0] == 0x2bu8 || t[0] == 0x2du8) {
        t.skip(1)
    } else {
        t
    }
}

/// A G-code number: optional sign, then digits with at most one decimal point
/// and at least one digit (`5`, `-.5`, `5.`), with no leading zero in front of
/// another digit (`05` is rejected, `0.5` is not).
pub open spec fn is_number(t: Seq<u8>) -> bool {
    let b = number_body(t);
    &&& forall|i: int| 0 <= i < b.len() ==> is_digit(#[trigger] b[i]) || b[i] == 0x2eu8
    &&& exists|i: int| 0 <= i < b.len() && is_digit(#[trigger] b[i])
    &&& forall|i: int, j: int|
        0 <= i < j < b.len() && #[trigger] b[i] == 0x2eu8 ==> #[trigger] b[j] != 0x2eu8
    &&& !(b.len() > 1 && b[0] == 0x30u8 && is_digit(b[1]))
}

/// A parameter word: an upper-case letter immediately followed by a number.
pub open spec fn is_param(p: Seq<u8>) -> bool {
    p.len() >= 1 && is_upper(p[0]) && is_number(p.skip(1))
}

/// `k` is the position of the dot in a sub-coded command number like `38.3`.
pub open spec fn code_dot(r: Seq<u8>, k: int) -> bool {
    0 < k < r.len() && r[k] == 0x2eu8 && is_digits(r.take(k)) && is_digits(r.skip(k + 1))
}

/// The command number and optional sub-code written after the command letter.
pub open spec fn split_code(r: Seq<u8>) -> Option<(nat, Option<nat>)> {
    if is_digits(r) {
        Some((digits_value(r), None))
    } else if exists|k: int| code_dot(r, k) {
        let k = choose|k: int| code_dot(r, k);
        Some((digits_value(r.take(k)), Some(digits_value(r.skip(k + 1)))))
    } else {
        None
    }
}

/// Letter, number and sub-code of a command word.
pub open spec fn head_of(w: Seq<u8>) -> Option<(u8, nat, Option<nat>)> {
    if w.len() >= 1 && is_upper(w[0]) {
        match split_code(w.skip(1)) {
            Some((code, sub)) => Some((w[0], code, sub)),
            None => None,
        }
    } else {
        None
    }
}

// ---------------------------------------------------------------------------
// Results
// ---------------------------------------------------------------------------

/// A number as written in the line; satisfies [`is_number`].
#[derive(Clone, Debug, PartialEq)]
pub struct Decimal {
    pub text: Vec<u8>,
}

impl View for Decimal {
    type V = Seq<u8>;

    open spec fn view(&self) -> Seq<u8> {
        self.text@
    }
}

/// Axis targets of a move. `c` is the C-axis value as written, in degrees.
#[derive(Clone, Debug, PartialEq)]
pub struct MoveSpec {
    pub x: Option<Decimal>,
    pub y: Option<Decimal>,
    pub z: Option<Decimal>,
    pub c: Option<Decimal>,
}

/// M3/M4 pulser parameters; omitted ones stay `None`.
#[derive(Clone, Debug, PartialEq)]
pub struct PulserSpec {
    pub tool_negative: bool,
    /// Pulse on-time, µs (P).
    pub pulse_us: Option<Decimal>,
    /// Pulse current, A (Q).
    pub current_a: Option<Decimal>,
    /// Max duty cycle, percent (R).
    pub duty_pct: Option<Decimal>,
}

#[derive(Clone, Copy, Debug, PartialEq, Eq, Structural)]
pub enum HomeSpec {
    All,
    One(Axis),
}

#[derive(Clone, Debug, PartialEq)]
pub enum Parsed {
    /// G0: rapid move.
    Rapid(MoveSpec),
    /// G1: feed move.
    Feed(MoveSpec),
    /// G28: home axes.
    Home(HomeSpec),
    /// G38.3: probe toward target, stop on contact.
    Probe(MoveSpec),
    /// G53-G55: select the active coordinate system.
    SelectCoordSys(CoordSys),
    /// M8: start the pump.
    PumpOn,
    /// M9: stop the pump.
    PumpOff,
    /// M10: start wire feeding at the given feedrate in mm/min.
    WirefeedStart(Decimal),
    /// M11: stop wire feeding.
    WirefeedStop,
    /// M3/M4: set the pulser parameters used by the next G1/G38.3.
    Pulser(PulserSpec),
}

pub struct MoveSpecV {
    pub x: Option<Seq<u8>>,
    pub y: Option<Seq<u8>>,
    pub z: Option<Seq<u8>>,
    pub c: Option<Seq<u8>>,
}

pub struct PulserSpecV {
    pub tool_negative: bool,
    pub pulse_us: Option<Seq<u8>>,
    pub current_a: Option<Seq<u8>>,
    pub duty_pct: Option<Seq<u8>>,
}

pub enum ParsedV {
    Rapid(MoveSpecV),
    Feed(MoveSpecV),
    Home(HomeSpec),
    Probe(MoveSpecV),
    SelectCoordSys(CoordSys),
    PumpOn,
    PumpOff,
    WirefeedStart(Seq<u8>),
    WirefeedStop,
    Pulser(PulserSpecV),
}

pub open spec fn dec_view(o: Option<Decimal>) -> Option<Seq<u8>> {
    match o {
        Some(d) => Some(d@),
        None => None,
    }
}

impl View for MoveSpec {
    type V = MoveSpecV;

    open spec fn view(&self) -> MoveSpecV {
        MoveSpecV {
            x: dec_view(self.x),
            y: dec_view(self.y),
            z: dec_view(self.z),
            c: dec_view(self.c),
        }
    }
}

impl View for PulserSpec {
    type V = PulserSpecV;

    open spec fn view(&self) -> PulserSpecV {
        PulserSpecV {
            tool_negative: self.tool_negative,
            pulse_us: dec_view(self.pulse_us),
            current_a: dec_view(self.current_a),
            duty_pct: dec_view(self.duty_pct),
        }
    }
}

impl View for Parsed {
    type V = ParsedV;

    open spec fn view(&self) -> ParsedV {
        match self {
            Parsed::Rapid(m) => ParsedV::Rapid(m@),
            Parsed::Feed(m) => ParsedV::Feed(m@),
            Parsed::Home(h) => ParsedV::Home(*h),
            Parsed::Probe(m) => ParsedV::Probe(m@),
            Parsed::SelectCoordSys(c) => ParsedV::SelectCoordSys(*c),
            Parsed::PumpOn => ParsedV::PumpOn,
            Parsed::PumpOff => ParsedV::PumpOff,
            Parsed::WirefeedStart(d) => ParsedV::WirefeedStart(d@),
            Parsed::WirefeedStop => ParsedV::WirefeedStop,
            Parsed::Pulser(p) => ParsedV::Pulser(p@),
        }
    }
}

pub open spec fn parsed_view(o: Option<Parsed>) -> Option<ParsedV> {
    match o {
        Some(p) => Some(p@),
        None => None,
    }
}

// ---------------------------------------------------------------------------
// Meaning of a line
// ---------------------------------------------------------------------------

pub open spec fn no_axes() -> MoveSpecV {
    MoveSpecV { x: None, y: None, z: None, c: None }
}

/// Axis targets given by parameter words, later words overriding earlier ones;
/// `None` if a word is malformed or names no axis.
pub open spec fn move_of(ps: Seq<Seq<u8>>) -> Option<MoveSpecV>
    decreases ps.len(),
{
    if ps.len() == 0 {
        Some(no_axes())
    } else {
        match move_of(ps.drop_last()) {
            None => None,
            Some(m) => {
                let p = ps.last();
                let v = p.skip(1);
                if !is_param(p) {
                    None
                } else if p[0] == 0x58u8 {
                    Some(MoveSpecV { x: Some(v), y: m.y, z: m.z, c: m.c })
                } else if p[0] == 0x59u8 {
                    Some(MoveSpecV { x: m.x, y: Some(v), z: m.z, c: m.c })
                } else if p[0] == 0x5au8 {
                    Some(MoveSpecV { x: m.x, y: m.y, z: Some(v), c: m.c })
                } else if p[0] == 0x43u8 {
                    Some(MoveSpecV { x: m.x, y: m.y, z: m.z, c: Some(v) })
                } else {
                    None
                }
            },
        }
    }
}

/// A move needs at least one axis word.
pub open spec fn some_move_of(ps: Seq<Seq<u8>>) -> Option<MoveSpecV> {
    if ps.len() == 0 {
        None
    } else {
        move_of(ps)
    }
}

/// Pulser parameters given by `P`/`Q`/`R` words, later words overriding
/// earlier ones; `None` if a word is malformed or uses another letter.
pub open spec fn pulser_of(ps: Seq<Seq<u8>>, tool_negative: bool) -> Option<PulserSpecV>
    decreases ps.len(),
{
    if ps.len() == 0 {
        Some(PulserSpecV { tool_negative, pulse_us: None, current_a: None, duty_pct: None })
    } else {
        match pulser_of(ps.drop_last(), tool_negative) {
            None => None,
            Some(m) => {
                let p = ps.last();
                let v = p.skip(1);
                if !is_param(p) {
                    None
                } else if p[0] == 0x50u8 {
                    Some(PulserSpecV { pulse_us: Some(v), ..m })
                } else if p[0] == 0x51u8 {
                    Some(PulserSpecV { current_a: Some(v), ..m })
                } else if p[0] == 0x52u8 {
                    Some(PulserSpecV { duty_pct: Some(v), ..m })
                } else {
                    None
                }
            },
        }
    }
}

pub open spec fn axis_of_letter(b: u8) -> Option<Axis> {
    if b == 0x58u8 {
        Some(Axis::X)
    } else if b == 0x59u8 {
        Some(Axis::Y)
    } else if b == 0x5au8 {
        Some(Axis::Z)
    } else {
        None
    }
}

/// G28 takes no word (home all) or exactly one bare `X`, `Y` or `Z`.
pub open spec fn home_of(ps: Seq<Seq<u8>>) -> Option<HomeSpec> {
    if ps.len() == 0 {
        Some(HomeSpec::All)
    } else if ps.len() == 1 && ps[0].len() == 1 {
        match axis_of_letter(ps[0][0]) {
            Some(a) => Some(HomeSpec::One(a)),
            None => None,
        }
    } else {
        None
    }
}

pub open spec fn gcode_of(code: nat, sub: Option<nat>, ps: Seq<Seq<u8>>) -> Option<ParsedV> {
    if sub == Some(3nat) && code == 38 {
        match some_move_of(ps) {
            Some(m) => Some(ParsedV::Probe(m)),
            None => None,
        }
    } else if sub.is_some() {
        None
    } else if code == 0 {
        match some_move_of(ps) {
            Some(m) => Some(ParsedV::Rapid(m)),
            None => None,
        }
    } else if code == 1 {
        match some_move_of(ps) {
            Some(m) => Some(ParsedV::Feed(m)),
            None => None,
        }
    } else if code == 28 {
        match home_of(ps) {
            Some(h) => Some(ParsedV::Home(h)),
            None => None,
        }
    } else if ps.len() == 0 && code == 53 {
        Some(ParsedV::SelectCoordSys(CoordSys::Machine))
    } else if ps.len() == 0 && code == 54 {
        Some(ParsedV::SelectCoordSys(CoordSys::Grinder))
    } else if ps.len() == 0 && code == 55 {
        Some(ParsedV::SelectCoordSys(CoordSys::Work))
    } else {
        None
    }
}

pub open spec fn mcode_of(code: nat, sub: Option<nat>, ps: Seq<Seq<u8>>) -> Option<ParsedV> {
    if sub.is_some() {
        None
    } else if code == 3 || code == 4 {
        match pulser_of(ps, code == 3) {
            Some(p) => Some(ParsedV::Pulser(p)),
            None => None,
        }
    } else if code == 10 {
        if ps.len() == 1 && is_param(ps[0]) && ps[0][0] == 0x52u8 {
            Some(ParsedV::WirefeedStart(ps[0].skip(1)))
        } else {
            None
        }
    } else if ps.len() != 0 {
        None
    } else if code == 8 {
        Some(ParsedV::PumpOn)
    } else if code == 9 {
        Some(ParsedV::PumpOff)
    } else if code == 11 {
        Some(ParsedV::WirefeedStop)
    } else {
        None
    }
}

/// What a G-code line means, or `None` if it is not a supported, well-formed command.
pub open spec fn spec_parse(line: Seq<u8>) -> Option<ParsedV> {
    let w = words(line);
    if w.len() == 0 {
        None
    } else {
        match head_of(w[0]) {
            None => None,
            Some((letter, code, sub)) => if letter == 0x47u8 {
                gcode_of(code, sub, w.drop_first())
            } else if letter == 0x4du8 {
                mcode_of(code, sub, w.drop_first())
            } else {
                None
            },
        }
    }
}

/// `ps` with the words at `i` and `i + 1` exchanged.
pub open spec fn swap_adjacent(ps: Seq<Seq<u8>>, i: int) -> Seq<Seq<u8>> {
    ps.update(i, ps[i + 1]).update(i + 1, ps[i])
}

/// The order of axis words does not matter: exchanging two neighbouring
/// words with different letters gives the same move (or the same rejection).
pub proof fn law_move_order(ps: Seq<Seq<u8>>, i: int)
    requires
        0 <= i,
        i + 1 < ps.len(),
        ps[i][0] != ps[i + 1][0],
    ensures
        move_of(swap_adjacent(ps, i)) == move_of(ps),
    decreases ps.len(),
{
    let q = swap_adjacent(ps, i);
    if i + 2 < ps.len() {
        assert(q.drop_last() =~= swap_adjacent(ps.drop_last(), i));
        law_move_order(ps.drop_last(), i);
        assert(q.last() == ps.last());
    } else {
        assert(q.drop_last().drop_last() =~= ps.drop_last().drop_last());
        assert(q.last() == ps[i]);
        assert(q.drop_last().last() == ps[i + 1]);
        assert(ps.drop_last().last() == ps[i]);
        reveal_with_fuel(move_of, 3);
    }
}

/// The order of pulser words does not matter: exchanging two neighbouring
/// words with different letters gives the same parameters (or the same rejection).
pub proof fn law_pulser_order(ps: Seq<Seq<u8>>, i: int, tool_negative: bool)
    requires
        0 <= i,
        i + 1 < ps.len(),
        ps[i][0] != ps[i + 1][0],
    ensures
        pulser_of(swap_adjacent(ps, i), tool_negative) == pulser_of(ps, tool_negative),
    decreases ps.len(),
{
    let q = swap_adjacent(ps, i);
    if i + 2 < ps.len() {
        assert(q.drop_last() =~= swap_adjacent(ps.drop_last(), i));
        law_pulser_order(ps.drop_last(), i, tool_negative);
        assert(q.last() == ps.last());
    } else {
        assert(q.drop_last().drop_last() =~= ps.drop_last().drop_last());
        assert(q.last() == ps[i]);
        assert(q.drop_last().last() == ps[i + 1]);
        assert(ps.drop_last().last() == ps[i]);
        reveal_with_fuel(pulser_of, 3);
    }
}

pub open spec fn number_or_none(o: Option<Seq<u8>>) -> bool {
    o matches Some(v) ==> is_number(v)
}

/// Every axis value a move hands out is a well-formed number.
pub proof fn law_move_numbers(ps: Seq<Seq<u8>>)
    ensures
        move_of(ps) matches Some(m) ==> number_or_none(m.x) && number_or_none(m.y)
            && number_or_none(m.z) && number_or_none(m.c),
    decreases ps.len(),
{
    if ps.len() > 0 {
        law_move_numbers(ps.drop_last());
    }
}

/// Every pulser value handed out is a well-formed number.
pub proof fn law_pulser_numbers(ps: Seq<Seq<u8>>, tool_negative: bool)
    ensures
        pulser_of(ps, tool_negative) matches Some(p) ==> number_or_none(p.pulse_us)
            && number_or_none(p.current_a) && number_or_none(p.duty_pct),
    decreases ps.len(),
{
    if ps.len() > 0 {
        law_pulser_numbers(ps.drop_last(), tool_negative);
    }
}

/// The value of the last word in `ps` with letter `letter`, if any.
pub open spec fn axis_word(ps: Seq<Seq<u8>>, letter: u8) -> Option<Seq<u8>>
    decreases ps.len(),
{
    if ps.len() == 0 {
        None
    } else if ps.last()[0] == letter {
        Some(ps.last().skip(1))
    } else {
        axis_word(ps.drop_last(), letter)
    }
}

/// A move made of well-formed `X`, `Y`, `Z` and `C` words gives each axis
/// the value its word writes (the last one, if a letter repeats), in any
/// order, and leaves the axes without a word unset.
pub proof fn law_move_axes(ps: Seq<Seq<u8>>)
    requires
        forall|i: int|
            0 <= i < ps.len() ==> is_param(#[trigger] ps[i]) && (ps[i][0] == 0x58u8 || ps[i][0]
                == 0x59u8 || ps[i][0] == 0x5au8 || ps[i][0] == 0x43u8),
    ensures
        move_of(ps) == Some(
            MoveSpecV {
                x: axis_word(ps, 0x58u8),
                y: axis_word(ps, 0x59u8),
                z: axis_word(ps, 0x5au8),
                c: axis_word(ps, 0x43u8),
            },
        ),
    decreases ps.len(),
{
    if ps.len() > 0 {
        let q = ps.drop_last();
        assert forall|i: int| 0 <= i < q.len() implies is_param(#[trigger] q[i]) && (q[i][0]
            == 0x58u8 || q[i][0] == 0x59u8 || q[i][0] == 0x5au8 || q[i][0] == 0x43u8) by {
            assert(q[i] == ps[i]);
        }
        law_move_axes(q);
        assert(is_param(ps[ps.len() - 1]));
    }
}

/// `G28` homes every axis with no word, and one axis with exactly one bare
/// `X`, `Y` or `Z` (that axis); anything else is refused.
pub proof fn law_home_words(ps: Seq<Seq<u8>>)
    ensures
        ps.len() == 0 ==> gcode_of(28, None, ps) == Some(ParsedV::Home(HomeSpec::All)),
        ps == seq![seq![0x58u8]] ==> gcode_of(28, None, ps) == Some(
            ParsedV::Home(HomeSpec::One(Axis::X)),
        ),
        ps == seq![seq![0x59u8]] ==> gcode_of(28, None, ps) == Some(
            ParsedV::Home(HomeSpec::One(Axis::Y)),
        ),
        ps == seq![seq![0x5au8]] ==> gcode_of(28, None, ps) == Some(
            ParsedV::Home(HomeSpec::One(Axis::Z)),
        ),
        gcode_of(28, None, ps) is Some ==> ps.len() == 0 || ps == seq![seq![0x58u8]] || ps
            == seq![seq![0x59u8]] || ps == seq![seq![0x5au8]],
{
    if ps.len() == 1 && ps[0].len() == 1 {
        assert(ps[0] =~= seq![ps[0][0]]);
        assert(ps =~= seq![seq![ps[0][0]]]);
    }
}

/// What each command number does: `G0`, `G1` and `G38.3` are rapid, feed
/// and probe moves to the axis words; `G53`, `G54` and `G55` select the
/// machine, grinder and work systems; `M8`/`M9` turn the pump on and off;
/// `M10 R<rate>` starts the wire feed at that rate and `M11` stops it;
/// `M3` sets the pulser with the tool negative and `M4` with it positive.
pub proof fn law_command_numbers(ps: Seq<Seq<u8>>)
    ensures
        some_move_of(ps) matches Some(m) ==> gcode_of(0, None, ps) == Some(ParsedV::Rapid(m))
            && gcode_of(1, None, ps) == Some(ParsedV::Feed(m)) && gcode_of(38, Some(3nat), ps)
            == Some(ParsedV::Probe(m)),
        ps.len() == 0 ==> gcode_of(53, None, ps) == Some(ParsedV::SelectCoordSys(CoordSys::Machine))
            && gcode_of(54, None, ps) == Some(ParsedV::SelectCoordSys(CoordSys::Grinder))
            && gcode_of(55, None, ps) == Some(ParsedV::SelectCoordSys(CoordSys::Work))
            && mcode_of(8, None, ps) == Some(ParsedV::PumpOn) && mcode_of(9, None, ps) == Some(
            ParsedV::PumpOff) && mcode_of(11, None, ps) == Some(ParsedV::WirefeedStop),
        ps.len() == 1 && is_param(ps[0]) && ps[0][0] == 0x52u8 ==> mcode_of(10, None, ps) == Some(
            ParsedV::WirefeedStart(ps[0].skip(1)),
        ),
        mcode_of(3, None, ps) matches Some(ParsedV::Pulser(p)) ==> p.tool_negative,
        mcode_of(4, None, ps) matches Some(ParsedV::Pulser(p)) ==> !p.tool_negative,
        mcode_of(3, None, ps) is Some ==> mcode_of(3, None, ps).unwrap() is Pulser,
{
    law_pulser_flag(ps, true);
    law_pulser_flag(ps, false);
}

proof fn law_pulser_flag(ps: Seq<Seq<u8>>, tool_negative: bool)
    ensures
        pulser_of(ps, tool_negative) matches Some(p) ==> p.tool_negative == tool_negative,
    decreases ps.len(),
{
    if ps.len() > 0 {
        law_pulser_flag(ps.drop_last(), tool_negative);
    }
}

/// Pulser words set the parameter of their letter: `P` the pulse length,
/// `Q` the current and `R` the duty (the last word, if a letter repeats), in
/// any order; the others stay unset.
pub proof fn law_pulser_words(ps: Seq<Seq<u8>>, tool_negative: bool)
    requires
        forall|i: int|
            0 <= i < ps.len() ==> is_param(#[trigger] ps[i]) && (ps[i][0] == 0x50u8 || ps[i][0]
                == 0x51u8 || ps[i][0] == 0x52u8),
    ensures
        pulser_of(ps, tool_negative) == Some(
            PulserSpecV {
                tool_negative,
                pulse_us: axis_word(ps, 0x50u8),
                current_a: axis_word(ps, 0x51u8),
                duty_pct: axis_word(ps, 0x52u8),
            },
        ),
    decreases ps.len(),
{
    if ps.len() > 0 {
        let q = ps.drop_last();
        assert forall|i: int| 0 <= i < q.len() implies is_param(#[trigger] q[i]) && (q[i][0]
            == 0x50u8 || q[i][0] == 0x51u8 || q[i][0] == 0x52u8) by {
            assert(q[i] == ps[i]);
        }
        law_pulser_words(q, tool_negative);
        assert(is_param(ps[ps.len() - 1]));
    }
}

/// Blanks between words do not matter: two lines with the same words mean the same.
pub proof fn law_blank_insensitive(l1: Seq<u8>, l2: Seq<u8>)
    requires
        words(l1) == words(l2),
    ensures
        spec_parse(l1) == spec_parse(l2),
{
}

} // verus!

verus! {

// ---------------------------------------------------------------------------
// Parser
// ---------------------------------------------------------------------------

/// Command numbers at or above this value are all unknown; they are compared
/// after saturating here.
pub const CODE_CAP: u32 = 100000;

pub open spec fn sat(v: nat) -> u32 {
    if v < CODE_CAP {
        v as u32
    } else {
        CODE_CAP
    }
}

pub open spec fn sat_opt(v: Option<nat>) -> Option<u32> {
    match v {
        Some(n) => Some(sat(n)),
        None => None,
    }
}

fn is_digit_byte(b: u8) -> (r: bool)
    ensures
        r == is_digit(b),
{
    0x30u8 <= b && b <= 0x39u8
}

fn is_upper_byte(b: u8) -> (r: bool)
    ensures
        r == is_upper(b),
{
    0x41u8 <= b && b <= 0x5au8
}

/// Whether every byte of `line[a..b]` is a digit.
fn all_digits(line: &[u8], a: usize, b: usize) -> (r: bool)
    requires
        a <= b <= line@.len(),
    ensures
        r == (forall|i: int| a <= i < b ==> is_digit(#[trigger] line@[i])),
{
    let mut i: usize = a;
    while i < b
        invariant
            a <= i <= b <= line@.len(),
            forall|j: int| a <= j < i ==> is_digit(#[trigger] line@[j]),
        decreases b - i,
    {
        if !is_digit_byte(line[i]) {
            return false;
        }
        i = i + 1;
    }
    true
}

/// The saturated value of the digit run `line[a..b]`.
fn digits_sat(line: &[u8], a: usize, b: usize) -> (v: u32)
    requires
        a <= b <= line@.len(),
        forall|i: int| a <= i < b ==> is_digit(#[trigger] line@[i]),
    ensures
        v == sat(digits_value(line@.subrange(a as int, b as int))),
{
    let mut v: u32 = 0;
    let mut i: usize = a;
    proof {
        assert(line@.subrange(a as int, a as int).len() == 0);
    }
    while i < b
        invariant
            a <= i <= b <= line@.len(),
            forall|j: int| a <= j < b ==> is_digit(#[trigger] line@[j]),
            v == sat(digits_value(line@.subrange(a as int, i as int))),
        decreases b - i,
    {
        let d = line[i];
        assert(is_digit(line@[i as int]));
        proof {
            assert(line@.subrange(a as int, i + 1).drop_last() =~= line@.subrange(
                a as int,
                i as int,
            ));
        }
        if v < CODE_CAP {
            let nv: u32 = v * 10 + (d - 0x30u8) as u32;
            if nv < CODE_CAP {
                v = nv;
            } else {
                v = CODE_CAP;
            }
        }
        i = i + 1;
    }
    v
}

/// Whether `line[a..b]` is a number (see [`is_number`]).
fn number_ok(line: &[u8], a: usize, b: usize) -> (r: bool)
    requires
        a <= b <= line@.len(),
    ensures
        r == is_number(line@.subrange(a as int, b as int)),
{
    let ghost t = line@.subrange(a as int, b as int);
    let mut s: usize = a;
    if s < b && (line[s] == 0x2bu8 || line[s] == 0x2du8) {
        s = s + 1;
    }
    let ghost body = line@.subrange(s as int, b as int);
    assert(number_body(t) =~= body);
    let mut seen_digit = false;
    let mut seen_dot = false;
    let mut i: usize = s;
    while i < b
        invariant
            a <= s <= i <= b <= line@.len(),
            body == line@.subrange(s as int, b as int),
            t == line@.subrange(a as int, b as int),
            number_body(t) == body,
            forall|j: int| 0 <= j < i - s ==> is_digit(#[trigger] body[j]) || body[j] == 0x2eu8,
            seen_digit <==> exists|j: int| 0 <= j < i - s && is_digit(#[trigger] body[j]),
            seen_dot <==> exists|j: int| 0 <= j < i - s && #[trigger] body[j] == 0x2eu8,
            forall|j: int, k: int|
                0 <= j < k < i - s && #[trigger] body[j] == 0x2eu8 ==> #[trigger] body[k]
                    != 0x2eu8,
        decreases b - i,
    {
        let c = line[i];
        assert(body[i - s] == c);
        if c == 0x2eu8 {
            if seen_dot {
                proof {
                    let j = choose|j: int| 0 <= j < i - s && #[trigger] body[j] == 0x2eu8;
                    assert(body[j] == 0x2eu8 && body[i - s] == 0x2eu8);
                    assert(body.len() == b - s);
                    assert(0 <= j < i - s < body.len());
                }
                return false;
            }
            seen_dot = true;
        } else if is_digit_byte(c) {
            seen_digit = true;
        } else {
            proof {
                assert(body.len() == b - s);
                assert(!(is_digit(body[i - s]) || body[i - s] == 0x2eu8));
            }
            return false;
        }
        i = i + 1;
    }
    if !seen_digit {
        return false;
    }
    if b - s > 1 && line[s] == 0x30u8 && is_digit_byte(line[s + 1]) {
        assert(body[0] == line@[s as int] && body[1] == line@[s + 1]);
        return false;
    }
    proof {
        if body.len() > 1 {
            assert(body[0] == line@[s as int] && body[1] == line@[s + 1]);
        }
    }
    true
}

/// Whether `line[a..b]` is a parameter word (see [`is_param`]).
fn param_ok(line: &[u8], a: usize, b: usize) -> (r: bool)
    requires
        a < b <= line@.len(),
    ensures
        r == is_param(line@.subrange(a as int, b as int)),
{
    let ghost p = line@.subrange(a as int, b as int);
    assert(p.skip(1) =~= line@.subrange(a + 1, b as int));
    is_upper_byte(line[a]) && number_ok(line, a + 1, b)
}

/// Letter, saturated command number and sub-code of the command word `line[a..b]`.
fn parse_head(line: &[u8], a: usize, b: usize) -> (r: Option<(u8, u32, Option<u32>)>)
    requires
        a < b <= line@.len(),
    ensures
        match head_of(line@.subrange(a as int, b as int)) {
            None => r.is_none(),
            Some((l, c, s)) => r == Some((l, sat(c), sat_opt(s))),
        },
{
    let ghost w = line@.subrange(a as int, b as int);
    let ghost r = w.skip(1);
    assert(r =~= line@.subrange(a + 1, b as int));
    let letter = line[a];
    if !is_upper_byte(letter) {
        return None;
    }
    let mut k: usize = a + 1;
    while k < b && is_digit_byte(line[k])
        invariant
            a + 1 <= k <= b <= line@.len(),
            forall|j: int| a + 1 <= j < k ==> is_digit(#[trigger] line@[j]),
        decreases b - k,
    {
        k = k + 1;
    }
    let ghost kk: int = k - (a + 1);
    assert forall|j: int| 0 <= j < kk implies is_digit(#[trigger] r[j]) by {
        assert(r[j] == line@[a + 1 + j]);
    }
    proof {
        if k < b {
            assert(r[kk] == line@[k as int]);
            assert(!is_digit(r[kk]));
        }
        // Any dot position of a sub-coded number is the end of the leading digit run.
        assert forall|k2: int| code_dot(r, k2) implies k2 == kk by {
            if k2 < kk {
                assert(is_digit(r[k2]));
            } else if k2 > kk {
                assert(r.take(k2)[kk] == r[kk]);
                assert(is_digit(r.take(k2)[kk]));
            }
        }
    }
    if k == a + 1 {
        proof {
            if r.len() > 0 {
                assert(!is_digit(r[0]));
            }
            assert(!is_digits(r));
            assert(!exists|k2: int| code_dot(r, k2));
        }
        return None;
    }
    let code = digits_sat(line, a + 1, k);
    assert(r.take(kk) =~= line@.subrange(a + 1, k as int));
    if k == b {
        assert(r.take(kk) =~= r);
        assert(is_digits(r));
        return Some((letter, code, None));
    }
    proof {
        assert(!is_digits(r));
    }
    if line[k] == 0x2eu8 && k + 1 < b && all_digits(line, k + 1, b) {
        let sub = digits_sat(line, k + 1, b);
        proof {
            assert(r.skip(kk + 1) =~= line@.subrange(k + 1, b as int));
            assert forall|j: int| 0 <= j < r.skip(kk + 1).len() implies is_digit(
                #[trigger] r.skip(kk + 1)[j],
            ) by {
                assert(r.skip(kk + 1)[j] == line@[k + 1 + j]);
            }
            assert(code_dot(r, kk));
        }
        return Some((letter, code, Some(sub)));
    }
    proof {
        if exists|k2: int| code_dot(r, k2) {
            let k2 = choose|k2: int| code_dot(r, k2);
            assert(k2 == kk);
            assert(r[kk] == line@[k as int]);
            if line@[k as int] == 0x2eu8 {
                assert(r.skip(kk + 1) =~= line@.subrange(k + 1, b as int));
                if k + 1 < b {
                    assert forall|j: int| k + 1 <= j < b implies is_digit(#[trigger] line@[j]) by {
                        assert(r.skip(kk + 1)[j - (k + 1)] == line@[j]);
                    }
                }
            }
        }
    }
    None
}

} // verus!

verus! {

fn move_spec_none() -> (m: MoveSpec)
    ensures
        m@ == no_axes(),
{
    MoveSpec { x: None, y: None, z: None, c: None }
}

/// Axis words of a move (all words after the command word).
fn parse_move(line: &[u8], spans: &Vec<(usize, usize)>) -> (r: Option<MoveSpec>)
    requires
        spans_match(line@, spans@),
        spans@.len() >= 1,
    ensures
        match move_of(words(line@).drop_first()) {
            None => r.is_none(),
            Some(m) => r.is_some() && r.unwrap()@ == m,
        },
{
    let ghost w = words(line@);
    let mut m = move_spec_none();
    let mut ok = true;
    let mut k: usize = 1;
    assert(w.subrange(1, 1).len() == 0);
    while k < spans.len()
        invariant
            1 <= k <= spans@.len(),
            spans_match(line@, spans@),
            w == words(line@),
            ok ==> move_of(w.subrange(1, k as int)) == Some(m@),
            !ok ==> move_of(w.subrange(1, k as int)).is_none(),
        decreases spans@.len() - k,
    {
        let (a, b) = spans[k];
        let ghost p = w[k as int];
        proof {
            assert(w.subrange(1, k + 1).drop_last() =~= w.subrange(1, k as int));
            assert(w.subrange(1, k + 1).last() == p);
            assert(p == line@.subrange(a as int, b as int));
            assert(p.skip(1) =~= line@.subrange(a + 1, b as int));
            assert(p[0] == line@[a as int]);
        }
        if ok {
            if !param_ok(line, a, b) {
                ok = false;
            } else {
                let letter = line[a];
                let v = copy_range(line, a + 1, b);
                if letter == 0x58u8 {
                    m.x = Some(Decimal { text: v });
                } else if letter == 0x59u8 {
                    m.y = Some(Decimal { text: v });
                } else if letter == 0x5au8 {
                    m.z = Some(Decimal { text: v });
                } else if letter == 0x43u8 {
                    m.c = Some(Decimal { text: v });
                } else {
                    ok = false;
                }
            }
        }
        k = k + 1;
    }
    assert(w.subrange(1, w.len() as int) =~= w.drop_first());
    if ok {
        Some(m)
    } else {
        None
    }
}

/// `P`/`Q`/`R` words of M3/M4.
fn parse_pulser(line: &[u8], spans: &Vec<(usize, usize)>, tool_negative: bool) -> (r: Option<
    PulserSpec,
>)
    requires
        spans_match(line@, spans@),
        spans@.len() >= 1,
    ensures
        match pulser_of(words(line@).drop_first(), tool_negative) {
            None => r.is_none(),
            Some(m) => r.is_some() && r.unwrap()@ == m,
        },
{
    let ghost w = words(line@);
    let mut m = PulserSpec { tool_negative, pulse_us: None, current_a: None, duty_pct: None };
    let mut ok = true;
    let mut k: usize = 1;
    assert(w.subrange(1, 1).len() == 0);
    while k < spans.len()
        invariant
            1 <= k <= spans@.len(),
            spans_match(line@, spans@),
            w == words(line@),
            ok ==> pulser_of(w.subrange(1, k as int), tool_negative) == Some(m@),
            !ok ==> pulser_of(w.subrange(1, k as int), tool_negative).is_none(),
        decreases spans@.len() - k,
    {
        let (a, b) = spans[k];
        let ghost p = w[k as int];
        proof {
            assert(w.subrange(1, k + 1).drop_last() =~= w.subrange(1, k as int));
            assert(w.subrange(1, k + 1).last() == p);
            assert(p == line@.subrange(a as int, b as int));
            assert(p.skip(1) =~= line@.subrange(a + 1, b as int));
            assert(p[0] == line@[a as int]);
        }
        if ok {
            if !param_ok(line, a, b) {
                ok = false;
            } else {
                let letter = line[a];
                let v = copy_range(line, a + 1, b);
                if letter == 0x50u8 {
                    m.pulse_us = Some(Decimal { text: v });
                } else if letter == 0x51u8 {
                    m.current_a = Some(Decimal { text: v });
                } else if letter == 0x52u8 {
                    m.duty_pct = Some(Decimal { text: v });
                } else {
                    ok = false;
                }
            }
        }
        k = k + 1;
    }
    assert(w.subrange(1, w.len() as int) =~= w.drop_first());
    if ok {
        Some(m)
    } else {
        None
    }
}

/// The G28 target.
fn parse_home(line: &[u8], spans: &Vec<(usize, usize)>) -> (r: Option<HomeSpec>)
    requires
        spans_match(line@, spans@),
        spans@.len() >= 1,
    ensures
        r == home_of(words(line@).drop_first()),
{
    let ghost w = words(line@);
    if spans.len() == 1 {
        return Some(HomeSpec::All);
    }
    if spans.len() != 2 {
        return None;
    }
    let (a, b) = spans[1];
    proof {
        assert(w.drop_first()[0] == w[1]);
        assert(w[1] == line@.subrange(a as int, b as int));
    }
    if b - a != 1 {
        return None;
    }
    assert(w[1][0] == line@[a as int]);
    let l = line[a];
    if l == 0x58u8 {
        Some(HomeSpec::One(Axis::X))
    } else if l == 0x59u8 {
        Some(HomeSpec::One(Axis::Y))
    } else if l == 0x5au8 {
        Some(HomeSpec::One(Axis::Z))
    } else {
        None
    }
}

fn parse_gcode(
    line: &[u8],
    spans: &Vec<(usize, usize)>,
    code: u32,
    sub: Option<u32>,
    Ghost(c): Ghost<nat>,
    Ghost(s): Ghost<Option<nat>>,
) -> (r: Option<Parsed>)
    requires
        spans_match(line@, spans@),
        spans@.len() >= 1,
        code == sat(c),
        sub == sat_opt(s),
    ensures
        parsed_view(r) == gcode_of(c, s, words(line@).drop_first()),
{
    let ghost ps = words(line@).drop_first();
    proof {
        assert(ps.len() == spans@.len() - 1);
    }
    if code == 38 && sub == Some(3u32) {
        if spans.len() == 1 {
            return None;
        }
        return match parse_move(line, spans) {
            Some(m) => Some(Parsed::Probe(m)),
            None => None,
        };
    }
    if sub.is_some() {
        return None;
    }
    if code == 0 || code == 1 {
        if spans.len() == 1 {
            return None;
        }
        return match parse_move(line, spans) {
            Some(m) => if code == 0 {
                Some(Parsed::Rapid(m))
            } else {
                Some(Parsed::Feed(m))
            },
            None => None,
        };
    }
    if code == 28 {
        return match parse_home(line, spans) {
            Some(h) => Some(Parsed::Home(h)),
            None => None,
        };
    }
    if spans.len() != 1 {
        return None;
    }
    if code == 53 {
        Some(Parsed::SelectCoordSys(CoordSys::Machine))
    } else if code == 54 {
        Some(Parsed::SelectCoordSys(CoordSys::Grinder))
    } else if code == 55 {
        Some(Parsed::SelectCoordSys(CoordSys::Work))
    } else {
        None
    }
}

fn parse_mcode(
    line: &[u8],
    spans: &Vec<(usize, usize)>,
    code: u32,
    sub: Option<u32>,
    Ghost(c): Ghost<nat>,
    Ghost(s): Ghost<Option<nat>>,
) -> (r: Option<Parsed>)
    requires
        spans_match(line@, spans@),
        spans@.len() >= 1,
        code == sat(c),
        sub == sat_opt(s),
    ensures
        parsed_view(r) == mcode_of(c, s, words(line@).drop_first()),
{
    let ghost w = words(line@);
    let ghost ps = w.drop_first();
    proof {
        assert(ps.len() == spans@.len() - 1);
    }
    if sub.is_some() {
        return None;
    }
    if code == 3 || code == 4 {
        return match parse_pulser(line, spans, code == 3) {
            Some(p) => Some(Parsed::Pulser(p)),
            None => None,
        };
    }
    if code == 10 {
        if spans.len() != 2 {
            return None;
        }
        let (a, b) = spans[1];
        proof {
            assert(ps[0] == w[1]);
            assert(w[1] == line@.subrange(a as int, b as int));
            assert(w[1].skip(1) =~= line@.subrange(a + 1, b as int));
            assert(w[1][0] == line@[a as int]);
        }
        if param_ok(line, a, b) && line[a] == 0x52u8 {
            let v = copy_range(line, a + 1, b);
            return Some(Parsed::WirefeedStart(Decimal { text: v }));
        }
        return None;
    }
    if spans.len() != 1 {
        return None;
    }
    if code == 8 {
        Some(Parsed::PumpOn)
    } else if code == 9 {
        Some(Parsed::PumpOff)
    } else if code == 11 {
        Some(Parsed::WirefeedStop)
    } else {
        None
    }
}

/// Parse one G-code line. `None` when the line is not a supported, well-formed
/// command: unknown command or sub-code, lower-case letters, missing blanks
/// between words, malformed numbers, unknown or missing parameters.
pub fn parse(line: &[u8]) -> (r: Option<Parsed>)
    ensures
        parsed_view(r) == spec_parse(line@),
{
    let spans = split_words(line);
    if spans.len() == 0 {
        return None;
    }
    let (a, b) = spans[0];
    assert(words(line@)[0] == line@.subrange(a as int, b as int));
    match parse_head(line, a, b) {
        None => None,
        Some((letter, code, sub)) => {
            let ghost h = head_of(words(line@)[0]).unwrap();
            if letter == 0x47u8 {
                parse_gcode(line, &spans, code, sub, Ghost(h.1), Ghost(h.2))
            } else if letter == 0x4du8 {
                parse_mcode(line, &spans, code, sub, Ghost(h.1), Ghost(h.2))
            } else {
                None
            }
        },
    }
}

} // verus!
