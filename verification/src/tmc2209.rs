//! TMC2209 UART wire protocol: CRC, datagram framing, reply checking, and the
//! register values the driver writes.

use vstd::prelude::*;

verus! {

pub const REG_GCONF: u8 = 0x00;
pub const REG_IFCNT: u8 = 0x02;
pub const REG_IOIN: u8 = 0x06;
pub const REG_IHOLD_IRUN: u8 = 0x10;
pub const REG_TCOOLTHRS: u8 = 0x14;
pub const REG_SGTHRS: u8 = 0x40;
pub const REG_SG_RESULT: u8 = 0x41;
pub const REG_COOLCONF: u8 = 0x42;
pub const REG_CHOPCONF: u8 = 0x6C;

pub const SYNC_BYTE: u8 = 0x05;
pub const NODE_ADDR_BROADCAST: u8 = 0x00;
pub const MASTER_ADDR: u8 = 0xFF;
pub const WRITE_BIT_MASK: u8 = 0x80;
pub const REG_ADDR_MASK: u8 = 0x7F;

// ---------------------------------------------------------------------------
// CRC
// ---------------------------------------------------------------------------

/// One bit of the TMC CRC: polynomial 0x07, MSB out, data bit `bit`.
pub open spec fn crc_bit(crc: u8, bit: u8) -> u8 {
    if ((crc >> 7u8) ^ (bit & 1u8)) != 0 {
        ((crc << 1u8) ^ 0x07u8) as u8
    } else {
        (crc << 1u8) as u8
    }
}

/// The first `n` data bits of `byte`, least significant first, folded into `crc`.
pub open spec fn crc_bits(crc: u8, byte: u8, n: nat) -> u8
    decreases n,
{
    if n == 0 {
        crc
    } else {
        crc_bit(crc_bits(crc, byte, (n - 1) as nat), (byte >> ((n - 1) as u8)) as u8)
    }
}

/// The TMC UART CRC of `data`.
pub open spec fn crc_of(data: Seq<u8>) -> u8
    decreases data.len(),
{
    if data.len() == 0 {
        0
    } else {
        crc_bits(crc_of(data.drop_last()), data.last(), 8)
    }
}

/// TMC UART CRC: poly 0x07, MSB-out, data bits LSB-first per byte.
pub fn crc(data: &[u8]) -> (r: u8)
    ensures
        r == crc_of(data@),
{
    let mut crc: u8 = 0;
    let mut k: usize = 0;
    while k < data.len()
        invariant
            k <= data@.len(),
            crc == crc_of(data@.take(k as int)),
        decreases data@.len() - k,
    {
        let byte = data[k];
        let mut b: u8 = byte;
        let ghost start = crc;
        let mut i: u8 = 0;
        assert(byte == (byte >> 0u8) as u8) by (bit_vector);
        while i < 8
            invariant
                i <= 8,
                b == (byte >> i) as u8,
                crc == crc_bits(start, byte, i as nat),
            decreases 8 - i,
        {
            if ((crc >> 7u8) ^ (b & 1u8)) != 0 {
                crc = (crc << 1u8) ^ 0x07u8;
            } else {
                crc = crc << 1u8;
            }
            assert((((byte >> i) as u8) >> 1u8) as u8 == (byte >> ((i + 1) as u8)) as u8)
                by (bit_vector)
                requires
                    i < 8,
            ;
            b = b >> 1u8;
            i = i + 1;
        }
        proof {
            assert(data@.take(k + 1).drop_last() =~= data@.take(k as int));
            assert(data@.take(k + 1).last() == byte);
        }
        k = k + 1;
    }
    assert(data@.take(data@.len() as int) =~= data@);
    crc
}

// ---------------------------------------------------------------------------
// Datagrams
// ---------------------------------------------------------------------------

/// Big-endian bytes of `v`.
pub open spec fn be_bytes(v: u32) -> Seq<u8> {
    seq![(v >> 24u32) as u8, (v >> 16u32) as u8, (v >> 8u32) as u8, v as u8]
}

/// The value of four big-endian bytes.
pub open spec fn be_value(b0: u8, b1: u8, b2: u8, b3: u8) -> u32 {
    (b0 * 0x100_0000 + b1 * 0x1_0000 + b2 * 0x100 + b3) as u32
}

/// The head of a read request: sync, broadcast node, register.
pub open spec fn read_head(reg: u8) -> Seq<u8> {
    seq![SYNC_BYTE, NODE_ADDR_BROADCAST, reg & REG_ADDR_MASK]
}

/// The head of a write request: sync, broadcast node, register with write bit, value.
pub open spec fn write_head(reg: u8, val: u32) -> Seq<u8> {
    seq![SYNC_BYTE, NODE_ADDR_BROADCAST, (reg & REG_ADDR_MASK) | WRITE_BIT_MASK] + be_bytes(val)
}

/// Read request for register `reg`: head then its CRC.
pub fn encode_read(reg: u8) -> (r: [u8; 4])
    ensures
        r@ == read_head(reg).push(crc_of(read_head(reg))),
{
    let mut buf: [u8; 4] = [0u8; 4];
    buf[0] = SYNC_BYTE;
    buf[1] = NODE_ADDR_BROADCAST;
    buf[2] = reg & REG_ADDR_MASK;
    let head: [u8; 3] = [SYNC_BYTE, NODE_ADDR_BROADCAST, reg & REG_ADDR_MASK];
    let hs: &[u8] = &head;
    assert(hs@ =~= read_head(reg));
    let c = crc(hs);
    buf[3] = c;
    assert(buf@ =~= read_head(reg).push(crc_of(read_head(reg))));
    buf
}

/// Write request putting `val` into register `reg`: head then its CRC.
pub fn encode_write(reg: u8, val: u32) -> (r: [u8; 8])
    ensures
        r@ == write_head(reg, val).push(crc_of(write_head(reg, val))),
{
    let mut buf: [u8; 8] = [0u8; 8];
    buf[0] = SYNC_BYTE;
    buf[1] = NODE_ADDR_BROADCAST;
    buf[2] = (reg & REG_ADDR_MASK) | WRITE_BIT_MASK;
    buf[3] = (val >> 24u32) as u8;
    buf[4] = (val >> 16u32) as u8;
    buf[5] = (val >> 8u32) as u8;
    buf[6] = val as u8;
    let head: [u8; 7] = [buf[0], buf[1], buf[2], buf[3], buf[4], buf[5], buf[6]];
    let hs: &[u8] = &head;
    assert(hs@ =~= write_head(reg, val));
    let c = crc(hs);
    buf[7] = c;
    assert(buf@ =~= write_head(reg, val).push(crc_of(write_head(reg, val))));
    buf
}

/// Errors of a register transaction; `Transport` carries the transport's own error.
#[derive(Debug)]
pub enum Error<E> {
    Transport(E),
    ReplyBadSync,
    ReplyBadMaster,
    ReplyRegMismatch,
    ReplyCrc,
    WriteVerifyFailed,
}

/// How a read reply is judged: the first failing check, in order, or the value.
pub enum ReplyCheck {
    BadSync,
    BadMaster,
    RegMismatch,
    BadCrc,
    Value(u32),
}

pub open spec fn check_reply(buf: Seq<u8>, expected_reg: u8) -> ReplyCheck
    recommends
        buf.len() == 8,
{
    if buf[0] != SYNC_BYTE {
        ReplyCheck::BadSync
    } else if buf[1] != MASTER_ADDR {
        ReplyCheck::BadMaster
    } else if (buf[2] & REG_ADDR_MASK) != (expected_reg & REG_ADDR_MASK) {
        ReplyCheck::RegMismatch
    } else if buf[7] != crc_of(buf.take(7)) {
        ReplyCheck::BadCrc
    } else {
        ReplyCheck::Value(be_value(buf[3], buf[4], buf[5], buf[6]))
    }
}

/// Check a read reply against the register asked for and extract its value.
pub fn parse_reply<E>(buf: &[u8; 8], expected_reg: u8) -> (r: Result<u32, Error<E>>)
    ensures
        match check_reply(buf@, expected_reg) {
            ReplyCheck::BadSync => r matches Err(Error::ReplyBadSync),
            ReplyCheck::BadMaster => r matches Err(Error::ReplyBadMaster),
            ReplyCheck::RegMismatch => r matches Err(Error::ReplyRegMismatch),
            ReplyCheck::BadCrc => r matches Err(Error::ReplyCrc),
            ReplyCheck::Value(v) => r == Ok::<u32, Error<E>>(v),
        },
{
    if buf[0] != SYNC_BYTE {
        return Err(Error::ReplyBadSync);
    }
    if buf[1] != MASTER_ADDR {
        return Err(Error::ReplyBadMaster);
    }
    if (buf[2] & REG_ADDR_MASK) != (expected_reg & REG_ADDR_MASK) {
        return Err(Error::ReplyRegMismatch);
    }
    let head: [u8; 7] = [buf[0], buf[1], buf[2], buf[3], buf[4], buf[5], buf[6]];
    let hs: &[u8] = &head;
    assert(hs@ =~= buf@.take(7));
    if buf[7] != crc(hs) {
        return Err(Error::ReplyCrc);
    }
    Ok((buf[3] as u32) * 0x100_0000 + (buf[4] as u32) * 0x1_0000 + (buf[5] as u32) * 0x100 + (
    buf[6] as u32))
}

} // verus!

verus! {

// ---------------------------------------------------------------------------
// Register values
// ---------------------------------------------------------------------------

/// The reply a driver sends for register `reg` holding `val`.
pub open spec fn reply_frame(reg: u8, val: u32) -> Seq<u8> {
    let head = seq![SYNC_BYTE, MASTER_ADDR, reg & REG_ADDR_MASK] + be_bytes(val);
    head.push(crc_of(head))
}

/// A well-formed reply for the register asked for yields exactly the value it carries.
pub proof fn law_reply_roundtrip(reg: u8, val: u32)
    ensures
        check_reply(reply_frame(reg, val), reg) == ReplyCheck::Value(val),
{
    let head = seq![SYNC_BYTE, MASTER_ADDR, reg & REG_ADDR_MASK] + be_bytes(val);
    let f = reply_frame(reg, val);
    assert(f.take(7) =~= head);
    let b0 = (val >> 24u32) as u8;
    let b1 = (val >> 16u32) as u8;
    let b2 = (val >> 8u32) as u8;
    let b3 = val as u8;
    assert(f[3] == b0 && f[4] == b1 && f[5] == b2 && f[6] == b3);
    assert(f[0] == SYNC_BYTE && f[1] == MASTER_ADDR && f[2] == reg & REG_ADDR_MASK);
    assert(f[7] == crc_of(head));
    assert((reg & 0x7fu8) & 0x7fu8 == reg & 0x7fu8) by (bit_vector);
    assert(b0 * 0x100_0000 + b1 * 0x1_0000 + b2 * 0x100 + b3 == val) by (bit_vector)
        requires
            b0 == (val >> 24u32) as u8,
            b1 == (val >> 16u32) as u8,
            b2 == (val >> 8u32) as u8,
            b3 == val as u8,
    ;
    assert(be_value(b0, b1, b2, b3) == val);
}

/// A run/hold current percentage on the driver's 0..=31 scale, rounded
/// (values above 100 give larger numbers, which spill into the next field).
pub open spec fn current_scale(percent: u32) -> u32 {
    ((percent * 31 + 50) / 100) as u32
}

/// The largest percentage whose scaling fits in 32 bits.
pub const PERCENT_MAX: u32 = 138_547_330;

/// `IHOLD_IRUN`: hold delay 10 in bits 19..16, the run current scale shifted
/// into bits 8 and up, the hold current scale or-ed into the low bits. For
/// percentages up to 100 the three fields are separate.
pub fn ihold_irun(run_percent: u32, hold_percent: u32) -> (r: u32)
    requires
        run_percent <= PERCENT_MAX,
        hold_percent <= PERCENT_MAX,
    ensures
        r == (0x000A_0000u32 | (current_scale(run_percent) << 8u32) | current_scale(hold_percent)),
        run_percent <= 100 && hold_percent <= 100 ==> r == 10 * 0x1_0000 + current_scale(
            run_percent,
        ) * 0x100 + current_scale(hold_percent),
{
    let irun = (run_percent * 31 + 50) / 100;
    let ihold = (hold_percent * 31 + 50) / 100;
    let ihold_delay: u32 = 10;
    let r = (ihold_delay << 16u32) | (irun << 8u32) | ihold;
    assert(ihold_delay << 16u32 == 0x000A_0000u32) by (bit_vector)
        requires
            ihold_delay == 10,
    ;
    if run_percent <= 100 && hold_percent <= 100 {
        assert(irun <= 31 && ihold <= 31);
        assert(r == 10 * 0x1_0000 + irun * 0x100 + ihold) by (bit_vector)
            requires
                r == (ihold_delay << 16u32) | (irun << 8u32) | ihold,
                ihold_delay == 10,
                irun <= 31,
                ihold <= 31,
        ;
    }
    r
}

/// The number of trailing zero bits of a nonzero `m`.
pub open spec fn trailing_zeros(m: u32) -> nat
    decreases m,
{
    if m == 0 || m % 2 == 1 {
        0
    } else {
        1 + trailing_zeros(m / 2)
    }
}

/// A usable microstep setting: nonzero with at most eight trailing zero bits
/// (the powers of two from 1 to 256 are the ones the driver supports).
pub open spec fn microstep_ok(m: u32) -> bool {
    m != 0 && trailing_zeros(m) <= 8
}

/// The `MRES` field for a microstep setting: 8 minus its trailing zero bits
/// (0 for 256 up to 8 for 1).
pub open spec fn mres_of(m: u32) -> u32 {
    (8 - trailing_zeros(m)) as u32
}

/// Count the trailing zero bits of a nonzero `m`, up to nine.
fn count_trailing_zeros(m: u32) -> (r: u32)
    requires
        m != 0,
    ensures
        r == (if trailing_zeros(m) <= 8 {
            trailing_zeros(m)
        } else {
            9
        }),
{
    let mut v = m;
    let mut n: u32 = 0;
    while n < 9 && v % 2 == 0
        invariant
            v != 0,
            n <= 9,
            trailing_zeros(m) == n + trailing_zeros(v),
        decreases 9 - n,
    {
        v = v / 2;
        n = n + 1;
    }
    n
}

/// `CHOPCONF` with its `MRES` field (bits 27..24) set for `microstep`.
pub fn chopconf_with_microstep(chopconf: u32, microstep: u32) -> (r: u32)
    requires
        microstep_ok(microstep),
    ensures
        r == (chopconf & 0xF0FF_FFFFu32) | (mres_of(microstep) << 24u32),
{
    let tz = count_trailing_zeros(microstep);
    let mres: u32 = 8 - tz;
    (chopconf & 0xF0FF_FFFFu32) | (mres << 24u32)
}

/// Whether `microstep` can be programmed (see [`microstep_ok`]).
pub fn microstep_supported(microstep: u32) -> (r: bool)
    ensures
        r == microstep_ok(microstep),
{
    microstep != 0 && count_trailing_zeros(microstep) <= 8
}

/// `GCONF` with `mstep_reg_select` (bit 7) set, so `MRES` comes from `CHOPCONF`.
pub fn gconf_with_mstep_reg(gconf: u32) -> (r: u32)
    ensures
        r == gconf | 0x80u32,
{
    gconf | 0x80u32
}

/// `TCOOLTHRS` holds 20 bits.
pub fn tcoolthrs_value(value: u32) -> (r: u32)
    ensures
        r == value & 0x000F_FFFFu32,
{
    value & 0x000F_FFFFu32
}

/// A write is confirmed when the interface counter advanced by exactly one.
pub fn write_confirmed(ifcnt_before: u8, ifcnt_after: u8) -> (r: bool)
    ensures
        r == (ifcnt_after == (if ifcnt_before == 255 {
            0
        } else {
            ifcnt_before + 1
        })),
{
    ifcnt_after == ifcnt_before.wrapping_add(1)
}

// ---------------------------------------------------------------------------
// Confirmed register write
// ---------------------------------------------------------------------------

/// The write datagram for `val` into `reg`.
pub open spec fn write_frame(reg: u8, val: u32) -> Seq<u8> {
    write_head(reg, val).push(crc_of(write_head(reg, val)))
}

/// The interface counter read back confirms the write: it advanced by one
/// (its low byte, wrapping).
pub open spec fn counter_confirms(before: u32, after: u32) -> bool {
    (after as u8) == (if (before as u8) == 255 {
        0
    } else {
        ((before as u8) + 1) as u8
    })
}

/// What a confirmed register write asks of the transport next.
pub enum WriteAction {
    /// Read the interface counter register (`IFCNT`).
    ReadCounter,
    /// Send this write datagram, then let the bus settle.
    Send([u8; 8]),
    /// The write is over: confirmed or not.
    Finish(bool),
}

pub enum WriteActionV {
    ReadCounter,
    Send(Seq<u8>),
    Finish(bool),
}

impl View for WriteAction {
    type V = WriteActionV;

    open spec fn view(&self) -> WriteActionV {
        match self {
            WriteAction::ReadCounter => WriteActionV::ReadCounter,
            WriteAction::Send(f) => WriteActionV::Send(f@),
            WriteAction::Finish(b) => WriteActionV::Finish(*b),
        }
    }
}

/// What the transport reported back.
pub enum WriteEvent {
    /// The interface counter register's value.
    Counter(u32),
    /// The datagram was sent and the bus settled.
    Sent,
}

/// Where a write stands: before the first counter read, sending (with the
/// counter's low byte read before), reading the counter back, or over.
#[derive(Clone, Copy, Debug, PartialEq, Eq, Structural)]
pub enum WritePhase {
    Before,
    Sending(u8),
    After(u8),
    Over,
}

/// A register write confirmed by the interface counter: read the counter,
/// send the datagram, read the counter again; the write took if the counter
/// advanced by exactly one.
pub struct RegWrite {
    pub reg: u8,
    pub val: u32,
    pub phase: WritePhase,
}

/// The event a write waits for in `phase`.
pub open spec fn expects(phase: WritePhase, ev: WriteEvent) -> bool {
    match phase {
        WritePhase::Before => ev is Counter,
        WritePhase::Sending(_) => ev is Sent,
        WritePhase::After(_) => ev is Counter,
        WritePhase::Over => false,
    }
}

/// The next phase and action of a write of `val` into `reg` in `phase`, on `ev`.
pub open spec fn write_step_spec(reg: u8, val: u32, phase: WritePhase, ev: WriteEvent) -> (
    WritePhase,
    WriteActionV,
) {
    match (phase, ev) {
        (WritePhase::Before, WriteEvent::Counter(v)) => (
            WritePhase::Sending(v as u8),
            WriteActionV::Send(write_frame(reg, val)),
        ),
        (WritePhase::Sending(b), WriteEvent::Sent) => (WritePhase::After(b), WriteActionV::ReadCounter),
        (WritePhase::After(b), WriteEvent::Counter(v)) => (
            WritePhase::Over,
            WriteActionV::Finish(counter_confirms(b as u32, v)),
        ),
        _ => (WritePhase::Over, WriteActionV::Finish(false)),
    }
}

impl RegWrite {
    /// Begin a write of `val` into `reg`: the first step reads the counter.
    pub fn start(reg: u8, val: u32) -> (r: (RegWrite, WriteAction))
        ensures
            r.0.reg == reg,
            r.0.val == val,
            r.0.phase == WritePhase::Before,
            r.1@ == WriteActionV::ReadCounter,
    {
        (RegWrite { reg, val, phase: WritePhase::Before }, WriteAction::ReadCounter)
    }

    /// Take the transport's report and give the next action.
    pub fn step(&mut self, ev: WriteEvent) -> (a: WriteAction)
        requires
            expects(old(self).phase, ev),
        ensures
            final(self).reg == old(self).reg,
            final(self).val == old(self).val,
            (final(self).phase, a@) == write_step_spec(old(self).reg, old(self).val, old(self).phase, ev),
    {
        match ev {
            WriteEvent::Counter(v) => {
                match self.phase {
                    WritePhase::Before => {
                        self.phase = WritePhase::Sending(v as u8);
                        WriteAction::Send(encode_write(self.reg, self.val))
                    },
                    WritePhase::After(b) => {
                        self.phase = WritePhase::Over;
                        let ok = write_confirmed(b, v as u8);
                        proof {
                            assert((b as u32) as u8 == b) by (bit_vector);
                        }
                        WriteAction::Finish(ok)
                    },
                    _ => {
                        self.phase = WritePhase::Over;
                        WriteAction::Finish(false)
                    },
                }
            },
            WriteEvent::Sent => {
                match self.phase {
                    WritePhase::Sending(b) => {
                        self.phase = WritePhase::After(b);
                        WriteAction::ReadCounter
                    },
                    _ => {
                        self.phase = WritePhase::Over;
                        WriteAction::Finish(false)
                    },
                }
            },
        }
    }
}

/// A write runs read, send, read: after the counter reads `before` and
/// then `after`, the datagram sent is the write frame and the write is
/// confirmed exactly when the counter advanced by one.
pub proof fn law_write_sequence(reg: u8, val: u32, before: u32, after: u32)
    ensures
        ({
            let (p1, a1) = write_step_spec(reg, val, WritePhase::Before, WriteEvent::Counter(before));
            let (p2, a2) = write_step_spec(reg, val, p1, WriteEvent::Sent);
            let (p3, a3) = write_step_spec(reg, val, p2, WriteEvent::Counter(after));
            &&& a1 == WriteActionV::Send(write_frame(reg, val))
            &&& a2 == WriteActionV::ReadCounter
            &&& a3 == WriteActionV::Finish(counter_confirms(before, after))
            &&& p3 == WritePhase::Over
        }),
{
    let b = before as u8;
    assert((b as u32) as u8 == b) by (bit_vector);
}

/// Doubling a setting adds one trailing zero bit, so it lowers `MRES` by one:
/// odd settings are full-step codes (`MRES` 8) and each doubling halves the
/// step, down to 256 microsteps at `MRES` 0; one more doubling is refused.
pub proof fn law_microstep_doubling(m: u32)
    requires
        0 < m <= 0x7fff_ffff,
    ensures
        trailing_zeros((2 * m) as u32) == trailing_zeros(m) + 1,
        m % 2 == 1 ==> microstep_ok(m) && mres_of(m) == 8,
        microstep_ok(m) && trailing_zeros(m) >= 1 ==> mres_of(m) + 1 == mres_of((m / 2) as u32),
        trailing_zeros(m) == 8 ==> microstep_ok(m) && mres_of(m) == 0 && !microstep_ok(
            (2 * m) as u32,
        ),
{
    assert(((2 * m) as u32) % 2 == 0 && ((2 * m) as u32) / 2 == m);
    if trailing_zeros(m) >= 1 {
        assert(m % 2 == 0);
    }
}

/// The supported settings 1, 2, 4, ..., 256 have `MRES` codes 8 down to 0,
/// and 512 is not supported.
pub proof fn law_microstep_codes()
    ensures
        mres_of(1) == 8 && mres_of(2) == 7 && mres_of(4) == 6 && mres_of(8) == 5 && mres_of(16) == 4
            && mres_of(32) == 3 && mres_of(64) == 2 && mres_of(128) == 1 && mres_of(256) == 0,
        microstep_ok(1) && microstep_ok(32) && microstep_ok(256) && !microstep_ok(512),
{
    reveal_with_fuel(trailing_zeros, 11);
}

/// A current percentage up to 100 lands on the 0..=31 scale, rounded to
/// the nearest step: 0 gives 0, 100 gives 31, and the scale value times 100
/// is within 50 of the percentage times 31.
pub proof fn law_current_scale(percent: u32)
    requires
        percent <= 100,
    ensures
        current_scale(percent) <= 31,
        current_scale(percent) * 100 <= percent * 31 + 50,
        percent * 31 + 50 < current_scale(percent) * 100 + 100,
        percent == 0 ==> current_scale(percent) == 0,
        percent == 100 ==> current_scale(percent) == 31,
{
}

} // verus!
