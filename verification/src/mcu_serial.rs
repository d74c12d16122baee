//! UART-to-CAN MCU bridge codec.
//!
//! Wire format: `[0xA5][LEN][can_ID LE4][DATA(LEN)][CRC8][0x5A]`.
//! LEN = DLC (0..=8); can_ID bit31 = extended flag; CRC8 (poly 0x07, init 0)
//! covers `[LEN][can_ID][DATA]`. Parsing is length-anchored; a stray
//! delimiter in DATA is rejected by the CRC and the parser resyncs one byte.
use crate::error::MotorError;
use crate::frame::{padded8, CanFrame, FrameView};
use crate::text::{decimal, push_decimal};
use std::collections::VecDeque;
use vstd::prelude::*;

verus! {

pub const HEADER: u8 = 0xA5;

pub const TAIL: u8 = 0x5A;

pub const MAX_DLC: usize = 8;

pub const MAX_FRAME: usize = 1 + 1 + 4 + MAX_DLC + 1 + 1;

/// Reserved 29-bit id on which the MCU pushes a link-status snapshot (an
/// extended frame with DLC 8). The host never sends on it.
pub const STATUS_ID: u32 = 0x1FFF_FFEF;

/// Bits of the `flags` byte of a status frame.
pub const FLAG_BUS_OFF: u8 = 0x01;

pub const FLAG_TX_FAILED: u8 = 0x02;

pub const FLAG_RX_DROPPED: u8 = 0x04;

pub const FLAG_RX_CRC_BAD: u8 = 0x08;

pub const FLAG_RX_OVERSIZE: u8 = 0x10;

pub const FLAG_APP_TX_DROPPED: u8 = 0x20;

pub const FLAG_BUS_ERROR: u8 = 0x40;

// ---------------------------------------------------------------------------
// CRC-8 (polynomial 0x07, initial value 0, no reflection)
// ---------------------------------------------------------------------------

/// One shift of the CRC register.
pub open spec fn crc_step(c: u8) -> u8 {
    if c & 0x80u8 != 0 {
        (c << 1u8) ^ 0x07u8
    } else {
        c << 1u8
    }
}

pub open spec fn crc_steps(c: u8, n: nat) -> u8
    decreases n,
{
    if n == 0 {
        c
    } else {
        crc_step(crc_steps(c, (n - 1) as nat))
    }
}

/// The register after feeding one byte.
pub open spec fn crc_byte(crc: u8, b: u8) -> u8 {
    crc_steps(crc ^ b, 8)
}

/// CRC-8 of a byte sequence.
pub open spec fn crc8_spec(s: Seq<u8>) -> u8
    decreases s.len(),
{
    if s.len() == 0 {
        0
    } else {
        crc_byte(crc8_spec(s.drop_last()), s.last())
    }
}

fn crc_update(crc: u8, b: u8) -> (r: u8)
    ensures
        r == crc_byte(crc, b),
{
    let mut c: u8 = crc ^ b;
    let mut k: u8 = 0;
    while k < 8
        invariant
            k <= 8,
            c == crc_steps(crc ^ b, k as nat),
        decreases 8 - k,
    {
        c = if c & 0x80 != 0 {
            (c << 1) ^ 0x07
        } else {
            c << 1
        };
        k = k + 1;
    }
    c
}

/// CRC-8 of `data[lo..hi]`.
pub fn crc8_range(data: &[u8], lo: usize, hi: usize) -> (r: u8)
    requires
        lo <= hi <= data@.len(),
    ensures
        r == crc8_spec(data@.subrange(lo as int, hi as int)),
{
    let mut crc: u8 = 0;
    let mut i = lo;
    assert(data@.subrange(lo as int, lo as int) =~= Seq::<u8>::empty());
    while i < hi
        invariant
            lo <= i <= hi <= data@.len(),
            crc == crc8_spec(data@.subrange(lo as int, i as int)),
        decreases hi - i,
    {
        assert(data@.subrange(lo as int, i + 1).drop_last() =~= data@.subrange(lo as int, i as int));
        crc = crc_update(crc, data[i]);
        i = i + 1;
    }
    crc
}

/// CRC-8 (polynomial 0x07, initial value 0) of `data`.
pub fn crc8(data: &[u8]) -> (r: u8)
    ensures
        r == crc8_spec(data@),
{
    assert(data@.subrange(0, data@.len() as int) =~= data@);
    crc8_range(data, 0, data.len())
}

// ---------------------------------------------------------------------------
// Link-status snapshot
// ---------------------------------------------------------------------------

/// Decoded MCU link-status snapshot carried in a status frame.
#[derive(Clone, Debug)]
pub struct McuSerialStatus {
    /// Controller state: 0=STOPPED, 1=ERROR_ACTIVE, 2=ERROR_WARNING,
    /// 3=ERROR_PASSIVE, 4=BUS_OFF.
    pub state: u8,
    /// Bitmask of the `FLAG_*` constants: which counters are non-zero.
    pub flags: u8,
    /// TX error counter, saturated to u8.
    pub tx_error_count: u8,
    /// RX error counter, saturated to u8.
    pub rx_error_count: u8,
    /// CAN TX attempts that failed, saturated to u16.
    pub tx_failed: u16,
    /// Frames the MCU received but dropped before reaching the host,
    /// saturated to u16.
    pub rx_dropped: u16,
}

/// Name of a controller state code.
pub open spec fn state_name_spec(state: u8) -> Seq<char> {
    if state == 0 {
        "STOPPED"@
    } else if state == 1 {
        "ERROR_ACTIVE"@
    } else if state == 2 {
        "ERROR_WARNING"@
    } else if state == 3 {
        "ERROR_PASSIVE"@
    } else if state == 4 {
        "BUS_OFF"@
    } else {
        "UNKNOWN"@
    }
}

/// `acc` extended by `name` when `present`, names separated by commas.
pub open spec fn join_flag(acc: Seq<char>, present: bool, name: Seq<char>) -> Seq<char> {
    if !present {
        acc
    } else if acc.len() == 0 {
        name
    } else {
        acc + ","@ + name
    }
}

pub open spec fn flag_set(flags: u8, bit: u8) -> bool {
    flags & bit != 0
}

/// Comma-separated names of the fault flags set in `flags`, in bit order.
pub open spec fn flag_names_spec(flags: u8) -> Seq<char> {
    let a0 = join_flag(Seq::empty(), flag_set(flags, FLAG_BUS_OFF), "bus_off"@);
    let a1 = join_flag(a0, flag_set(flags, FLAG_TX_FAILED), "tx_failed"@);
    let a2 = join_flag(a1, flag_set(flags, FLAG_RX_DROPPED), "rx_dropped"@);
    let a3 = join_flag(a2, flag_set(flags, FLAG_RX_CRC_BAD), "rx_crc_bad"@);
    let a4 = join_flag(a3, flag_set(flags, FLAG_RX_OVERSIZE), "rx_oversize"@);
    let a5 = join_flag(a4, flag_set(flags, FLAG_APP_TX_DROPPED), "app_tx_dropped"@);
    join_flag(a5, flag_set(flags, FLAG_BUS_ERROR), "bus_error"@)
}

/// Whether a status is a hard fault (ERROR_PASSIVE, BUS_OFF, or the BUS_OFF
/// flag set before the state catches up).
pub open spec fn hard_fault_spec(s: McuSerialStatus) -> bool {
    flag_set(s.flags, FLAG_BUS_OFF) || s.state == 3 || s.state == 4
}

/// The one-line description of a status snapshot.
pub open spec fn describe_spec(s: McuSerialStatus) -> Seq<char> {
    "state="@ + state_name_spec(s.state) + " flags="@ + flag_names_spec(s.flags) + " TEC="@
        + decimal(s.tx_error_count as nat) + " REC="@ + decimal(s.rx_error_count as nat)
        + " tx_failed="@ + decimal(s.tx_failed as nat) + " rx_dropped="@ + decimal(
        s.rx_dropped as nat,
    )
}

fn append_flag(s: &mut String, present: bool, name: &str)
    ensures
        final(s)@ == join_flag(old(s)@, present, name@),
{
    if present {
        if s.as_str().is_empty() {
            s.append(name);
        } else {
            s.append(",");
            s.append(name);
        }
    }
}

impl McuSerialStatus {
    pub fn state_name(&self) -> (r: &'static str)
        ensures
            r@ == state_name_spec(self.state),
    {
        match self.state {
            0 => "STOPPED",
            1 => "ERROR_ACTIVE",
            2 => "ERROR_WARNING",
            3 => "ERROR_PASSIVE",
            4 => "BUS_OFF",
            _ => "UNKNOWN",
        }
    }

    pub fn bus_off(&self) -> (r: bool)
        ensures
            r == flag_set(self.flags, FLAG_BUS_OFF),
    {
        self.flags & FLAG_BUS_OFF != 0
    }

    pub fn tx_failed(&self) -> (r: bool)
        ensures
            r == flag_set(self.flags, FLAG_TX_FAILED),
    {
        self.flags & FLAG_TX_FAILED != 0
    }

    pub fn rx_dropped(&self) -> (r: bool)
        ensures
            r == flag_set(self.flags, FLAG_RX_DROPPED),
    {
        self.flags & FLAG_RX_DROPPED != 0
    }

    pub fn crc_bad(&self) -> (r: bool)
        ensures
            r == flag_set(self.flags, FLAG_RX_CRC_BAD),
    {
        self.flags & FLAG_RX_CRC_BAD != 0
    }

    pub fn oversize(&self) -> (r: bool)
        ensures
            r == flag_set(self.flags, FLAG_RX_OVERSIZE),
    {
        self.flags & FLAG_RX_OVERSIZE != 0
    }

    pub fn app_tx_dropped(&self) -> (r: bool)
        ensures
            r == flag_set(self.flags, FLAG_APP_TX_DROPPED),
    {
        self.flags & FLAG_APP_TX_DROPPED != 0
    }

    pub fn bus_error(&self) -> (r: bool)
        ensures
            r == flag_set(self.flags, FLAG_BUS_ERROR),
    {
        self.flags & FLAG_BUS_ERROR != 0
    }

    /// Whether this status is a hard CAN-bus fault that makes further
    /// communication impossible or unreliable (ERROR_PASSIVE / BUS_OFF, or
    /// the BUS_OFF flag). Everything else is a benign anomaly that a receive
    /// drains through.
    pub fn is_hard_fault(&self) -> (r: bool)
        ensures
            r == hard_fault_spec(*self),
    {
        self.bus_off() || self.state == 3 || self.state == 4
    }

    /// Comma-separated list of the fault flags that are set; empty when none
    /// is set.
    pub fn flag_names(&self) -> (r: String)
        ensures
            r@ == flag_names_spec(self.flags),
    {
        let mut s = String::new();
        append_flag(&mut s, self.bus_off(), "bus_off");
        append_flag(&mut s, self.tx_failed(), "tx_failed");
        append_flag(&mut s, self.rx_dropped(), "rx_dropped");
        append_flag(&mut s, self.crc_bad(), "rx_crc_bad");
        append_flag(&mut s, self.oversize(), "rx_oversize");
        append_flag(&mut s, self.app_tx_dropped(), "app_tx_dropped");
        append_flag(&mut s, self.bus_error(), "bus_error");
        s
    }

    /// `state=.. flags=.. TEC=.. REC=.. tx_failed=.. rx_dropped=..`, the
    /// display form of the snapshot.
    pub fn describe(&self) -> (r: String)
        ensures
            r@ == describe_spec(*self),
    {
        let mut s = String::new();
        s.append("state=");
        s.append(self.state_name());
        s.append(" flags=");
        let names = self.flag_names();
        s.append(names.as_str());
        s.append(" TEC=");
        push_decimal(&mut s, self.tx_error_count as u64);
        s.append(" REC=");
        push_decimal(&mut s, self.rx_error_count as u64);
        s.append(" tx_failed=");
        push_decimal(&mut s, self.tx_failed as u64);
        s.append(" rx_dropped=");
        push_decimal(&mut s, self.rx_dropped as u64);
        s
    }
}

/// Little-endian u16 of two bytes.
pub open spec fn le_u16(b0: u8, b1: u8) -> u16 {
    ((b0 as u16) | ((b1 as u16) << 8u16)) as u16
}

/// Decode the 8-byte status payload.
pub fn decode_status(data: &[u8]) -> (s: McuSerialStatus)
    requires
        data@.len() >= 8,
    ensures
        s.state == data@[0],
        s.flags == data@[1],
        s.tx_error_count == data@[2],
        s.rx_error_count == data@[3],
        s.tx_failed == le_u16(data@[4], data@[5]),
        s.rx_dropped == le_u16(data@[6], data@[7]),
{
    McuSerialStatus {
        state: data[0],
        flags: data[1],
        tx_error_count: data[2],
        rx_error_count: data[3],
        tx_failed: (data[4] as u16) | ((data[5] as u16) << 8),
        rx_dropped: (data[6] as u16) | ((data[7] as u16) << 8),
    }
}

// ---------------------------------------------------------------------------
// Frame encoding
// ---------------------------------------------------------------------------

/// The 32-bit identifier as sent on the wire: the 29-bit id, bit 31 set for
/// extended frames.
pub open spec fn wire_id_spec(f: FrameView) -> u32 {
    let id = f.arbitration_id & 0x1FFF_FFFFu32;
    if f.is_extended {
        id | 0x8000_0000u32
    } else {
        id
    }
}

/// Little-endian bytes of a u32.
pub open spec fn le_bytes(x: u32) -> Seq<u8> {
    seq![x as u8, (x >> 8u32) as u8, (x >> 16u32) as u8, (x >> 24u32) as u8]
}

/// Little-endian u32 of four bytes.
pub open spec fn le_u32(b0: u8, b1: u8, b2: u8, b3: u8) -> u32 {
    (b0 as u32) | ((b1 as u32) << 8u32) | ((b2 as u32) << 16u32) | ((b3 as u32) << 24u32)
}

/// The bytes the CRC covers: `[LEN][can_ID LE4][DATA]`.
pub open spec fn body_spec(f: FrameView) -> Seq<u8> {
    seq![f.dlc] + le_bytes(wire_id_spec(f)) + f.data.take(f.dlc as int)
}

/// The complete wire encoding of a frame whose DLC is at most 8.
pub open spec fn encoding_spec(f: FrameView) -> Seq<u8> {
    seq![HEADER] + body_spec(f) + seq![crc8_spec(body_spec(f)), TAIL]
}

/// Message of the error for a DLC above 8.
pub open spec fn dlc_error_message(dlc: u8) -> Seq<char> {
    "invalid DLC "@ + decimal(dlc as nat) + ", mcu-serial is classic CAN (<=8 bytes)"@
}

/// Serialize a frame for the bridge. A DLC above 8 is refused.
pub fn encode_tx(frame: CanFrame) -> (r: Result<Vec<u8>, MotorError>)
    ensures
        frame.dlc > 8 ==> (r matches Err(MotorError::InvalidArgument(m)) && m@
            == dlc_error_message(frame.dlc)),
        frame.dlc <= 8 ==> (r matches Ok(v) && v@ == encoding_spec(frame@)),
{
    let dlc = frame.dlc as usize;
    if dlc > MAX_DLC {
        let mut m = String::new();
        m.append("invalid DLC ");
        push_decimal(&mut m, frame.dlc as u64);
        m.append(", mcu-serial is classic CAN (<=8 bytes)");
        return Err(MotorError::InvalidArgument(m));
    }
    let can_id = frame.arbitration_id & 0x1FFF_FFFF;
    let wire_id = if frame.is_extended {
        can_id | 0x8000_0000
    } else {
        can_id
    };
    let mut out: Vec<u8> = Vec::new();
    out.push(HEADER);
    out.push(dlc as u8);
    out.push(wire_id as u8);
    out.push((wire_id >> 8) as u8);
    out.push((wire_id >> 16) as u8);
    out.push((wire_id >> 24) as u8);
    let mut i: usize = 0;
    while i < dlc
        invariant
            dlc == frame.dlc,
            dlc <= 8,
            i <= dlc,
            wire_id == wire_id_spec(frame@),
            out@ == seq![HEADER] + seq![frame.dlc] + le_bytes(wire_id) + frame.data@.take(i as int),
        decreases dlc - i,
    {
        out.push(frame.data[i]);
        assert(frame.data@.take(i + 1) =~= frame.data@.take(i as int).push(frame.data@[i as int]));
        i = i + 1;
    }
    let ghost body = body_spec(frame@);
    assert(out@ =~= seq![HEADER] + body);
    assert(out@.subrange(1, out@.len() as int) =~= body);
    let crc = crc8_range(out.as_slice(), 1, out.len());
    out.push(crc);
    out.push(TAIL);
    assert(out@ =~= encoding_spec(frame@));
    Ok(out)
}

// ---------------------------------------------------------------------------
// Frame parsing
// ---------------------------------------------------------------------------

/// The frame carried by a well-delimited record `s` of payload length `len`.
pub open spec fn frame_at(s: Seq<u8>, len: nat) -> FrameView {
    let wire = le_u32(s[2], s[3], s[4], s[5]);
    FrameView {
        arbitration_id: wire & 0x1FFF_FFFFu32,
        data: padded8(s.subrange(6, 6 + len as int)),
        dlc: len as u8,
        is_extended: wire & 0x8000_0000u32 != 0,
        is_rx: true,
    }
}

/// What parsing a receive buffer yields: the first valid frame (if a
/// complete one is present) and the bytes left in the buffer. Bytes before a
/// header, and headers whose length byte, tail or CRC is wrong, are dropped
/// one at a time; an incomplete record at the front stays buffered.
pub open spec fn parse_spec(s: Seq<u8>) -> (Option<FrameView>, Seq<u8>)
    decreases s.len(),
{
    if s.len() == 0 {
        (None, s)
    } else if s[0] != HEADER {
        parse_spec(s.drop_first())
    } else if s.len() < 2 {
        (None, s)
    } else if s[1] > 8 {
        parse_spec(s.drop_first())
    } else if s.len() < 8 + s[1] {
        (None, s)
    } else if s[7 + s[1]] != TAIL || crc8_spec(s.subrange(1, 6 + s[1])) != s[6 + s[1]] {
        parse_spec(s.drop_first())
    } else {
        (Some(frame_at(s, s[1] as nat)), s.skip(8 + s[1]))
    }
}

/// Extract the next frame from the receive buffer, dropping garbage and
/// corrupted records, and keeping an incomplete record buffered.
pub fn try_parse_rx(buf: &mut VecDeque<u8>) -> (r: Option<CanFrame>)
    ensures
        final(buf)@ == parse_spec(old(buf)@).1,
        match r {
            Some(f) => parse_spec(old(buf)@).0 == Some(f@),
            None => parse_spec(old(buf)@).0 is None,
        },
{
    let ghost orig = buf@;
    loop
        invariant
            parse_spec(buf@) == parse_spec(orig),
            orig == old(buf)@,
        decreases buf@.len(),
    {
        let ghost start_len = buf@.len();
        while buf.len() > 0 && buf[0] != HEADER
            invariant
                parse_spec(buf@) == parse_spec(orig),
                buf@.len() <= start_len,
            decreases buf@.len(),
        {
            let _ = buf.pop_front();
        }
        if buf.len() < 2 {
            return None;
        }
        let len = buf[1] as usize;
        if len > MAX_DLC {
            let _ = buf.pop_front();
            continue;
        }
        let total = 8 + len;
        if buf.len() < total {
            return None;
        }
        let mut raw: Vec<u8> = Vec::new();
        let mut i: usize = 0;
        while i < total
            invariant
                i <= total <= buf@.len(),
                raw@ == buf@.take(i as int),
            decreases total - i,
        {
            raw.push(buf[i]);
            assert(buf@.take(i + 1) =~= buf@.take(i as int).push(buf@[i as int]));
            i = i + 1;
        }
        assert(raw@ == buf@.take(total as int));
        assert(raw@.subrange(1, 6 + len as int) =~= buf@.subrange(1, 6 + len as int));
        if raw[total - 1] != TAIL || crc8_range(raw.as_slice(), 1, 6 + len) != raw[6 + len] {
            let _ = buf.pop_front();
            continue;
        }
        let ghost s = buf@;
        let mut k: usize = 0;
        while k < total
            invariant
                k <= total <= s.len(),
                buf@ == s.skip(k as int),
            decreases total - k,
        {
            let _ = buf.pop_front();
            assert(s.skip(k as int).subrange(1, s.skip(k as int).len() as int) =~= s.skip(k + 1));
            k = k + 1;
        }
        let wire_id: u32 = (raw[2] as u32) | ((raw[3] as u32) << 8) | ((raw[4] as u32) << 16) | ((
        raw[5] as u32) << 24);
        let mut data = [0u8;8];
        let mut j: usize = 0;
        while j < len
            invariant
                len <= 8,
                6 + len <= raw@.len(),
                j <= len,
                forall|m: int| 0 <= m < j ==> data@[m] == raw@[6 + m],
                forall|m: int| j <= m < 8 ==> data@[m] == 0u8,
            decreases len - j,
        {
            data[j] = raw[6 + j];
            j = j + 1;
        }
        let frame = CanFrame {
            arbitration_id: wire_id & 0x1FFF_FFFF,
            data,
            dlc: len as u8,
            is_extended: wire_id & 0x8000_0000 != 0,
            is_rx: true,
        };
        assert(frame@.data =~= padded8(s.subrange(6, 6 + len as int)));
        return Some(frame);
    }
}

// ---------------------------------------------------------------------------
// Receive-side routing of parsed frames
// ---------------------------------------------------------------------------

/// What a receive does with a frame parsed from the bridge.
#[derive(Debug)]
pub enum RxDisposition {
    /// An ordinary data frame: hand it to the caller.
    Deliver(CanFrame),
    /// A benign link-status snapshot: drop it and keep looking.
    Drain,
    /// A hard link fault: report it as an error.
    Fault(MotorError),
}

/// Whether a frame is a full link-status snapshot.
pub open spec fn is_status_frame(f: FrameView) -> bool {
    f.is_extended && f.arbitration_id == STATUS_ID && f.dlc == 8
}

/// The status a snapshot frame carries.
pub open spec fn status_of(f: FrameView) -> McuSerialStatus {
    McuSerialStatus {
        state: f.data[0],
        flags: f.data[1],
        tx_error_count: f.data[2],
        rx_error_count: f.data[3],
        tx_failed: le_u16(f.data[4], f.data[5]),
        rx_dropped: le_u16(f.data[6], f.data[7]),
    }
}

/// Route a parsed frame: a full status snapshot is intercepted (a hard fault
/// becomes a `BusStatus` error, a benign anomaly is drained); every other
/// frame is delivered unchanged.
pub fn classify_rx(frame: CanFrame) -> (r: RxDisposition)
    ensures
        !is_status_frame(frame@) ==> (r matches RxDisposition::Deliver(g) && g == frame),
        is_status_frame(frame@) && !hard_fault_spec(status_of(frame@)) ==> r is Drain,
        is_status_frame(frame@) && hard_fault_spec(status_of(frame@)) ==> (r matches RxDisposition::Fault(
            MotorError::BusStatus(m),
        ) && m@ == "mcu-serial link status: "@ + describe_spec(status_of(frame@))),
{
    if frame.is_extended && frame.arbitration_id == STATUS_ID && frame.dlc == 8 {
        let status = decode_status(frame.data.as_slice());
        assert(status == status_of(frame@));
        if status.is_hard_fault() {
            let mut m = String::new();
            m.append("mcu-serial link status: ");
            let d = status.describe();
            m.append(d.as_str());
            return RxDisposition::Fault(MotorError::BusStatus(m));
        }
        return RxDisposition::Drain;
    }
    RxDisposition::Deliver(frame)
}


/// The CRC-8 (polynomial 0x07) of one byte, as the sum over GF(2) of the
/// remainders of its set bits: bit k contributes `x^(k+8) mod x^8+x^2+x+1`.
pub open spec fn crc8_of_byte_by_bits(b: u8) -> u8 {
    (if b & 0x01u8 != 0 { 0x07u8 } else { 0u8 }) ^ (if b & 0x02u8 != 0 { 0x0Eu8 } else { 0u8 }) ^ (
    if b & 0x04u8 != 0 { 0x1Cu8 } else { 0u8 }) ^ (if b & 0x08u8 != 0 { 0x38u8 } else { 0u8 }) ^ (
    if b & 0x10u8 != 0 { 0x70u8 } else { 0u8 }) ^ (if b & 0x20u8 != 0 { 0xE0u8 } else { 0u8 }) ^ (
    if b & 0x40u8 != 0 { 0xC7u8 } else { 0u8 }) ^ (if b & 0x80u8 != 0 { 0x89u8 } else { 0u8 })
}

/// The CRC is the standard CRC-8 with polynomial 0x07 and initial value 0:
/// the CRC of nothing is 0; the CRC of one byte is the polynomial remainder
/// of that byte; and feeding a byte after a prefix is the CRC of the one
/// byte `crc(prefix) ^ b` (a register that starts at 0).
pub proof fn law_crc8_standard(s: Seq<u8>, b: u8)
    ensures
        crc8_spec(Seq::empty()) == 0,
        crc8_spec(seq![b]) == crc8_of_byte_by_bits(b),
        crc8_spec(s.push(b)) == crc8_spec(seq![crc8_spec(s) ^ b]),
{
    let one = seq![b];
    assert(one.drop_last() =~= Seq::<u8>::empty());
    assert(s.push(b).drop_last() =~= s);
    assert(s.push(b).last() == b);
    let x = crc8_spec(s) ^ b;
    let ox = seq![x];
    assert(ox.drop_last() =~= Seq::<u8>::empty());
    assert(0u8 ^ x == x) by (bit_vector);
    assert(0u8 ^ b == b) by (bit_vector);
    reveal_with_fuel(crc_steps, 9);
    assert(crc_steps(b, 8) == crc_step(crc_step(crc_step(crc_step(crc_step(crc_step(crc_step(
        crc_step(b)))))))));
    assert(crc_step(crc_step(crc_step(crc_step(crc_step(crc_step(crc_step(crc_step(b))))))))
        == crc8_of_byte_by_bits(b)) by (bit_vector);
}

/// Every CRC of zero bytes is 0, whatever their number (the register starts
/// at 0 and the polynomial keeps 0 fixed).
pub proof fn law_crc8_of_zeros(n: nat)
    ensures
        crc8_spec(Seq::new(n, |i: int| 0u8)) == 0,
    decreases n,
{
    if n > 0 {
        let z = Seq::new(n, |i: int| 0u8);
        assert(z.drop_last() =~= Seq::new((n - 1) as nat, |i: int| 0u8));
        law_crc8_of_zeros((n - 1) as nat);
        law_crc8_standard(z.drop_last(), 0);
        assert(z.drop_last().push(0u8) =~= z);
        assert(0u8 ^ 0u8 == 0u8) by (bit_vector);
        assert(crc8_of_byte_by_bits(0) == 0) by (bit_vector);
    }
}

// ---------------------------------------------------------------------------
// Laws of the codec
// ---------------------------------------------------------------------------

/// The frame a receiver reconstructs from the encoding of `f`: the 29-bit
/// id, the first `dlc` payload bytes padded with zeros, marked as received.
pub open spec fn received_form(f: FrameView) -> FrameView {
    FrameView {
        arbitration_id: f.arbitration_id & 0x1FFF_FFFFu32,
        data: padded8(f.data.take(f.dlc as int)),
        dlc: f.dlc,
        is_extended: f.is_extended,
        is_rx: true,
    }
}

proof fn lemma_le_u32_roundtrip(x: u32)
    ensures
        le_u32(x as u8, (x >> 8u32) as u8, (x >> 16u32) as u8, (x >> 24u32) as u8) == x,
{
    assert(((x as u8) as u32) | ((((x >> 8u32) as u8) as u32) << 8u32) | ((((x >> 16u32) as u8)
        as u32) << 16u32) | ((((x >> 24u32) as u8) as u32) << 24u32) == x) by (bit_vector);
}

proof fn lemma_wire_id_fields(id: u32, ext: bool)
    ensures
        ({
            let w = if ext {
                (id & 0x1FFF_FFFFu32) | 0x8000_0000u32
            } else {
                id & 0x1FFF_FFFFu32
            };
            &&& w & 0x1FFF_FFFFu32 == id & 0x1FFF_FFFFu32
            &&& (w & 0x8000_0000u32 != 0) == ext
        }),
{
    assert(((id & 0x1FFF_FFFFu32) | 0x8000_0000u32) & 0x1FFF_FFFFu32 == id & 0x1FFF_FFFFu32)
        by (bit_vector);
    assert(((id & 0x1FFF_FFFFu32) | 0x8000_0000u32) & 0x8000_0000u32 != 0) by (bit_vector);
    assert((id & 0x1FFF_FFFFu32) & 0x1FFF_FFFFu32 == id & 0x1FFF_FFFFu32) by (bit_vector);
    assert((id & 0x1FFF_FFFFu32) & 0x8000_0000u32 == 0) by (bit_vector);
}

/// Layout of a bridge record: header `0xA5`, the DLC, the identifier as a
/// little-endian 32-bit number (the 29-bit id, plus 2^31 for an extended
/// frame), the DLC data bytes, the CRC of everything between header and
/// CRC, and tail `0x5A`.
pub proof fn law_encoding_layout(f: FrameView)
    requires
        f.dlc <= 8,
        f.data.len() == 8,
    ensures
        encoding_spec(f).len() == f.dlc + 8,
        encoding_spec(f)[0] == 0xA5,
        encoding_spec(f)[1] == f.dlc,
        encoding_spec(f)[2] as int + 256 * encoding_spec(f)[3] as int + 65536 * encoding_spec(f)[4] as int
            + 16777216 * encoding_spec(f)[5] as int == f.arbitration_id as int % 0x2000_0000
            + if f.is_extended { 0x8000_0000int } else { 0int },
        forall|i: int| 0 <= i < f.dlc ==> encoding_spec(f)[6 + i] == f.data[i],
        encoding_spec(f)[6 + f.dlc] == crc8_spec(encoding_spec(f).subrange(1, 6 + f.dlc)),
        encoding_spec(f)[7 + f.dlc] == 0x5A,
{
    let e = encoding_spec(f);
    let n = f.dlc as int;
    let body = body_spec(f);
    assert(body.len() == 5 + n);
    assert(e.subrange(1, 6 + n) =~= body);
    let w = wire_id_spec(f);
    let id = f.arbitration_id;
    assert(e[2] == w as u8 && e[3] == (w >> 8u32) as u8 && e[4] == (w >> 16u32) as u8 && e[5] == (w >> 24u32) as u8);
    assert(forall|i: int| 0 <= i < n ==> e[6 + i] == #[trigger] f.data[i]);
    let lo = w & 0xFFu32;
    let b1 = (w >> 8u32) & 0xFFu32;
    let b2 = (w >> 16u32) & 0xFFu32;
    let b3 = (w >> 24u32) & 0xFFu32;
    assert(w == lo + b1 * 256 + b2 * 65536 + b3 * 16777216 && (w as u8) as u32 == lo
        && ((w >> 8u32) as u8) as u32 == b1 && ((w >> 16u32) as u8) as u32 == b2
        && ((w >> 24u32) as u8) as u32 == b3 && id & 0x1FFF_FFFFu32 == id % 0x2000_0000u32
        && (id & 0x1FFF_FFFFu32) | 0x8000_0000u32 == (id & 0x1FFF_FFFFu32) + 0x8000_0000u32)
        by (bit_vector)
        requires
            lo == w & 0xFFu32,
            b1 == (w >> 8u32) & 0xFFu32,
            b2 == (w >> 16u32) & 0xFFu32,
            b3 == (w >> 24u32) & 0xFFu32,
    ;
}

/// Round trip: parsing a buffer that starts with the encoding of a frame
/// (DLC at most 8) yields that frame in its received form and leaves exactly
/// the bytes that followed the encoding.
pub proof fn law_encode_then_parse(f: FrameView, rest: Seq<u8>)
    requires
        f.dlc <= 8,
        f.data.len() == 8,
    ensures
        parse_spec(encoding_spec(f) + rest) == (Some(received_form(f)), rest),
{
    let body = body_spec(f);
    let enc = encoding_spec(f);
    let s = enc + rest;
    let n = f.dlc as int;
    let w = wire_id_spec(f);
    assert(body.len() == 5 + n);
    assert(enc.len() == 8 + n);
    assert(s[0] == HEADER);
    assert(s[1] == f.dlc);
    assert(s[7 + n] == TAIL);
    assert(s.subrange(1, 6 + n) =~= body);
    assert(s[6 + n] == crc8_spec(body));
    assert(s.skip(8 + n) =~= rest);
    assert(s[2] == w as u8);
    assert(s[3] == (w >> 8u32) as u8);
    assert(s[4] == (w >> 16u32) as u8);
    assert(s[5] == (w >> 24u32) as u8);
    lemma_le_u32_roundtrip(w);
    lemma_wire_id_fields(f.arbitration_id, f.is_extended);
    assert(s.subrange(6, 6 + n) =~= f.data.take(n));
    assert(frame_at(s, n as nat) == received_form(f));
}

/// Resynchronisation: bytes that are not a frame header, ahead of the
/// buffer, are skipped without affecting what is parsed after them.
pub proof fn law_garbage_prefix_skipped(g: Seq<u8>, s: Seq<u8>)
    requires
        forall|i: int| 0 <= i < g.len() ==> g[i] != HEADER,
    ensures
        parse_spec(g + s) == parse_spec(s),
    decreases g.len(),
{
    if g.len() > 0 {
        assert((g + s).drop_first() =~= g.drop_first() + s);
        law_garbage_prefix_skipped(g.drop_first(), s);
    } else {
        assert(g + s =~= s);
    }
}

/// A record that has not fully arrived stays buffered: every proper prefix
/// of an encoding parses to nothing and is kept whole.
pub proof fn law_partial_encoding_buffered(f: FrameView, k: int)
    requires
        f.dlc <= 8,
        f.data.len() == 8,
        0 <= k < encoding_spec(f).len(),
    ensures
        parse_spec(encoding_spec(f).take(k)) == (None::<FrameView>, encoding_spec(f).take(k)),
{
    let p = encoding_spec(f).take(k);
    if k >= 1 {
        assert(p[0] == HEADER);
    }
    if k >= 2 {
        assert(p[1] == f.dlc);
    }
}

} // verus!
