//! slcan (LAWICEL ASCII) serial CAN codec, as spoken by CANable, CANtact or
//! USBtin adapters.
//!
//! Frames are `T<id:8><dlc:1><data>\r` for extended ids and
//! `t<id:3><dlc:1><data>\r` for standard ids, with data as uppercase hex.
use crate::error::MotorError;
use crate::frame::{padded8, CanFrame, FrameView};
use crate::text::{decimal, push_decimal, string_push};
use std::collections::VecDeque;
use vstd::prelude::*;

verus! {

/// Default host baud. Most slcan adapters enumerate as USB CDC-ACM, where the
/// line rate is ignored, but a value is still required to open the port.
pub const DEFAULT_SERIAL_BAUD: u32 = 115_200;

pub const DEFAULT_BITRATE: u32 = 1_000_000;

pub const MAX_LINE_LEN: usize = 32;

/// Buffered bytes without a line terminator beyond which the receive buffer
/// is discarded.
pub const MAX_PENDING: usize = MAX_LINE_LEN * 16;

pub const CR: u8 = 0x0D;

// ---------------------------------------------------------------------------
// Bitrates
// ---------------------------------------------------------------------------

/// The `S` digit for a supported bitrate.
pub open spec fn bitrate_digit(bitrate: u32) -> Option<u8> {
    if bitrate == 10_000 {
        Some(0x30u8)
    } else if bitrate == 20_000 {
        Some(0x31u8)
    } else if bitrate == 50_000 {
        Some(0x32u8)
    } else if bitrate == 100_000 {
        Some(0x33u8)
    } else if bitrate == 125_000 {
        Some(0x34u8)
    } else if bitrate == 250_000 {
        Some(0x35u8)
    } else if bitrate == 500_000 {
        Some(0x36u8)
    } else if bitrate == 800_000 {
        Some(0x37u8)
    } else if bitrate == 1_000_000 {
        Some(0x38u8)
    } else {
        None
    }
}

pub open spec fn bitrate_error_message(bitrate: u32) -> Seq<char> {
    "unsupported slcan bitrate "@ + decimal(bitrate as nat)
        + ", expected one of 10000, 20000, 50000, 100000, 125000, 250000, 500000, 800000, 1000000"@
}


/// The supported bitrates are exactly 10k, 20k, 50k, 100k, 125k, 250k,
/// 500k, 800k and 1M bit/s, and their digits are `'0'..='8'` in increasing
/// order of bitrate: the mapping is strictly increasing, hence one to one.
pub proof fn law_bitrate_digits_in_order(a: u32, b: u32)
    ensures
        bitrate_digit(a) is Some <==> (a == 10_000 || a == 20_000 || a == 50_000 || a == 100_000
            || a == 125_000 || a == 250_000 || a == 500_000 || a == 800_000 || a == 1_000_000),
        bitrate_digit(a) is Some ==> 0x30 <= bitrate_digit(a).unwrap() <= 0x38,
        bitrate_digit(a) is Some && bitrate_digit(b) is Some ==> (a < b <==> bitrate_digit(
            a,
        ).unwrap() < bitrate_digit(b).unwrap()),
        bitrate_digit(1_000_000) == Some(0x38u8),
{
}

/// Map a bitrate in bit/s to the slcan `S` digit.
pub fn bitrate_code(bitrate: u32) -> (r: Result<u8, MotorError>)
    ensures
        bitrate_digit(bitrate) matches Some(d) ==> r == Ok::<u8, MotorError>(d),
        bitrate_digit(bitrate) is None ==> (r matches Err(MotorError::InvalidArgument(m)) && m@
            == bitrate_error_message(bitrate)),
{
    let digit = match bitrate {
        10_000 => 0x30u8,
        20_000 => 0x31u8,
        50_000 => 0x32u8,
        100_000 => 0x33u8,
        125_000 => 0x34u8,
        250_000 => 0x35u8,
        500_000 => 0x36u8,
        800_000 => 0x37u8,
        1_000_000 => 0x38u8,
        other => {
            let mut m = String::new();
            m.append("unsupported slcan bitrate ");
            push_decimal(&mut m, other as u64);
            m.append(
                ", expected one of 10000, 20000, 50000, 100000, 125000, 250000, 500000, 800000, 1000000",
            );
            return Err(MotorError::InvalidArgument(m));
        },
    };
    Ok(digit)
}

/// The commands that bring an adapter onto the bus: close (the bitrate is
/// only accepted while the channel is closed), set the bitrate, open.
pub fn open_commands(code: u8) -> (r: Vec<Vec<u8>>)
    ensures
        r@.len() == 3,
        r@[0]@ == seq![0x43u8, CR],
        r@[1]@ == seq![0x53u8, code, CR],
        r@[2]@ == seq![0x4Fu8, CR],
{
    let mut close: Vec<u8> = Vec::new();
    close.push(0x43u8);
    close.push(CR);
    let mut speed: Vec<u8> = Vec::new();
    speed.push(0x53u8);
    speed.push(code);
    speed.push(CR);
    let mut open: Vec<u8> = Vec::new();
    open.push(0x4Fu8);
    open.push(CR);
    let mut r: Vec<Vec<u8>> = Vec::new();
    r.push(close);
    r.push(speed);
    r.push(open);
    r
}

/// The command that takes an adapter off the bus.
pub fn close_command() -> (r: Vec<u8>)
    ensures
        r@ == seq![0x43u8, CR],
{
    let mut close: Vec<u8> = Vec::new();
    close.push(0x43u8);
    close.push(CR);
    close
}

// ---------------------------------------------------------------------------
// Hexadecimal
// ---------------------------------------------------------------------------

/// ASCII byte of an uppercase hex digit.
pub open spec fn hex_digit_byte(d: nat) -> u8 {
    if d < 10 {
        (0x30 + d) as u8
    } else {
        (0x41 + d - 10) as u8
    }
}

/// Uppercase hex digit as a character.
pub open spec fn hex_digit_char(d: nat) -> char {
    hex_digit_byte(d) as char
}

/// `x` in uppercase hex on exactly `width` digits (the high digits of a
/// larger `x` are cut off).
pub open spec fn hex_fixed(x: nat, width: nat) -> Seq<u8>
    decreases width,
{
    if width == 0 {
        Seq::empty()
    } else {
        hex_fixed(x / 16, (width - 1) as nat).push(hex_digit_byte(x % 16))
    }
}

/// `n` in uppercase hex without leading zeros (as `{:X}` renders it).
pub open spec fn hex_chars(n: nat) -> Seq<char>
    decreases n,
{
    if n < 16 {
        seq![hex_digit_char(n)]
    } else {
        hex_chars(n / 16).push(hex_digit_char(n % 16))
    }
}

/// Value of an ASCII hex digit, either case.
pub open spec fn hex_digit_value(b: u8) -> Option<nat> {
    if 0x30 <= b <= 0x39 {
        Some((b - 0x30) as nat)
    } else if 0x61 <= b <= 0x66 {
        Some((b - 0x61 + 10) as nat)
    } else if 0x41 <= b <= 0x46 {
        Some((b - 0x41 + 10) as nat)
    } else {
        None
    }
}

/// Whether every byte is a hex digit.
pub open spec fn all_hex(s: Seq<u8>) -> bool {
    forall|i: int| 0 <= i < s.len() ==> (#[trigger] hex_digit_value(s[i])) is Some
}

/// Numeric value of a sequence of hex digits (most significant first).
pub open spec fn hex_value(s: Seq<u8>) -> nat
    decreases s.len(),
{
    if s.len() == 0 {
        0
    } else {
        16 * hex_value(s.drop_last()) + hex_digit_value(s.last()).unwrap_or(0)
    }
}

/// What parsing hex digits yields: the value when every byte is a digit and
/// the value fits in a u32.
pub open spec fn hex_num_spec(s: Seq<u8>) -> Option<u32> {
    if all_hex(s) && hex_value(s) <= u32::MAX {
        Some(hex_value(s) as u32)
    } else {
        None
    }
}

fn hex_byte(d: u32) -> (b: u8)
    requires
        d < 16,
    ensures
        b == hex_digit_byte(d as nat),
{
    if d < 10 {
        (0x30 + d) as u8
    } else {
        (0x41 + d - 10) as u8
    }
}

/// Appends `x` in uppercase hex on exactly `width` digits.
fn push_hex_fixed(out: &mut Vec<u8>, x: u32, width: usize)
    ensures
        final(out)@ == old(out)@ + hex_fixed(x as nat, width as nat),
    decreases width,
{
    if width > 0 {
        push_hex_fixed(out, x / 16, width - 1);
        out.push(hex_byte(x % 16));
    } else {
        assert(old(out)@ + hex_fixed(x as nat, 0) =~= old(out)@);
    }
}

/// Appends `n` in uppercase hex without leading zeros.
fn push_hex_chars(s: &mut String, n: u32)
    ensures
        final(s)@ == old(s)@ + hex_chars(n as nat),
    decreases n,
{
    if n < 16 {
        string_push(s, hex_byte(n) as char);
    } else {
        push_hex_chars(s, n / 16);
        string_push(s, hex_byte(n % 16) as char);
    }
}

/// Value of an ASCII hex digit, either case.
pub fn hex_val(byte: u8) -> (r: Option<u32>)
    ensures
        r matches Some(v) ==> hex_digit_value(byte) == Some(v as nat),
        r is None ==> hex_digit_value(byte) is None,
{
    if 0x30 <= byte && byte <= 0x39 {
        Some((byte - 0x30) as u32)
    } else if 0x61 <= byte && byte <= 0x66 {
        Some((byte - 0x61 + 10) as u32)
    } else if 0x41 <= byte && byte <= 0x46 {
        Some((byte - 0x41 + 10) as u32)
    } else {
        None
    }
}

proof fn lemma_hex_value_monotone(s: Seq<u8>, i: int, j: int)
    requires
        0 <= i <= j <= s.len(),
    ensures
        hex_value(s.take(i)) <= hex_value(s.take(j)),
    decreases j - i,
{
    if i < j {
        lemma_hex_value_monotone(s, i, j - 1);
        assert(s.take(j).drop_last() =~= s.take(j - 1));
    }
}

/// Parse hex digits (either case) into a u32; `None` when a byte is not a
/// digit or the value does not fit.
pub fn hex_num(bytes: &[u8]) -> (r: Option<u32>)
    ensures
        r == hex_num_spec(bytes@),
{
    let mut acc: u32 = 0;
    let mut i: usize = 0;
    let ghost s = bytes@;
    while i < bytes.len()
        invariant
            i <= s.len(),
            s == bytes@,
            all_hex(s.take(i as int)),
            acc == hex_value(s.take(i as int)),
        decreases s.len() - i,
    {
        assert(s.take(i + 1).drop_last() =~= s.take(i as int));
        let d = match hex_val(bytes[i]) {
            Some(d) => d,
            None => {
                assert(!all_hex(s));
                return None;
            },
        };
        if acc > (u32::MAX - d) / 16 {
            proof {
                lemma_hex_value_monotone(s, i + 1, s.len() as int);
                assert(s.take(s.len() as int) =~= s);
            }
            return None;
        }
        acc = acc * 16 + d;
        i = i + 1;
        assert forall|k: int| 0 <= k < i implies (#[trigger] hex_digit_value(s.take(i as int)[k])) is Some by {
            if k < i - 1 {
                assert(s.take(i as int)[k] == s.take(i - 1)[k]);
            }
        }
    }
    assert(s.take(s.len() as int) =~= s);
    Some(acc)
}

// ---------------------------------------------------------------------------
// Encoding
// ---------------------------------------------------------------------------

/// Hex rendering of the payload bytes, two digits each.
pub open spec fn hex_payload(data: Seq<u8>) -> Seq<u8>
    decreases data.len(),
{
    if data.len() == 0 {
        Seq::empty()
    } else {
        hex_payload(data.drop_last()) + hex_fixed(data.last() as nat, 2)
    }
}

/// The line for a frame, without the terminating carriage return.
pub open spec fn line_spec(f: FrameView) -> Seq<u8> {
    let head = if f.is_extended {
        seq![0x54u8] + hex_fixed(f.arbitration_id as nat, 8)
    } else {
        seq![0x74u8] + hex_fixed(f.arbitration_id as nat, 3)
    };
    head.push((0x30 + f.dlc) as u8) + hex_payload(f.data.take(f.dlc as int))
}

/// Whether a frame can be sent over slcan.
pub open spec fn encodable(f: FrameView) -> bool {
    &&& f.dlc <= 8
    &&& !f.is_extended ==> f.arbitration_id <= 0x7FF
    &&& f.is_extended ==> f.arbitration_id <= 0x1FFF_FFFF
}

/// The error `encode_tx` reports for a frame that cannot be sent.
pub open spec fn encode_error_message(f: FrameView) -> Seq<char> {
    if f.dlc > 8 {
        "invalid DLC "@ + decimal(f.dlc as nat) + ", expected <= 8"@
    } else if !f.is_extended {
        "invalid arbitration_id "@ + hex_chars(f.arbitration_id as nat)
            + ", expected 11-bit std id"@
    } else {
        "invalid arbitration_id "@ + hex_chars(f.arbitration_id as nat)
            + ", expected 29-bit ext id"@
    }
}

/// Serialize a frame as one slcan line, terminated by a carriage return.
pub fn encode_tx(frame: CanFrame) -> (r: Result<Vec<u8>, MotorError>)
    ensures
        encodable(frame@) ==> (r matches Ok(v) && v@ == line_spec(frame@).push(CR)),
        !encodable(frame@) ==> (r matches Err(MotorError::InvalidArgument(m)) && m@
            == encode_error_message(frame@)),
{
    if frame.dlc > 8 {
        let mut m = String::new();
        m.append("invalid DLC ");
        push_decimal(&mut m, frame.dlc as u64);
        m.append(", expected <= 8");
        return Err(MotorError::InvalidArgument(m));
    }
    if !frame.is_extended && frame.arbitration_id > 0x7FF {
        let mut m = String::new();
        m.append("invalid arbitration_id ");
        push_hex_chars(&mut m, frame.arbitration_id);
        m.append(", expected 11-bit std id");
        return Err(MotorError::InvalidArgument(m));
    }
    if frame.is_extended && frame.arbitration_id > 0x1FFF_FFFF {
        let mut m = String::new();
        m.append("invalid arbitration_id ");
        push_hex_chars(&mut m, frame.arbitration_id);
        m.append(", expected 29-bit ext id");
        return Err(MotorError::InvalidArgument(m));
    }
    let dlc = frame.dlc as usize;
    let mut out: Vec<u8> = Vec::new();
    if frame.is_extended {
        out.push(0x54u8);
        push_hex_fixed(&mut out, frame.arbitration_id, 8);
    } else {
        out.push(0x74u8);
        push_hex_fixed(&mut out, frame.arbitration_id, 3);
    }
    out.push(0x30u8 + frame.dlc);
    let ghost head = out@;
    let mut i: usize = 0;
    while i < dlc
        invariant
            dlc == frame.dlc,
            dlc <= 8,
            i <= dlc,
            out@ == head + hex_payload(frame.data@.take(i as int)),
        decreases dlc - i,
    {
        assert(frame.data@.take(i + 1).drop_last() =~= frame.data@.take(i as int));
        push_hex_fixed(&mut out, frame.data[i] as u32, 2);
        i = i + 1;
        assert(out@ =~= head + hex_payload(frame.data@.take(i as int)));
    }
    out.push(CR);
    Ok(out)
}

// ---------------------------------------------------------------------------
// Parsing
// ---------------------------------------------------------------------------

/// Length of the identifier field for a line's first byte: `T` (extended)
/// takes 8 digits, `t` (standard) takes 3.
pub open spec fn id_len_of(first: u8) -> nat {
    if first == 0x54 {
        8
    } else {
        3
    }
}

/// The payload bytes of a line carrying `dlc` bytes after a `k`-byte
/// header, each read from two hex digits.
pub open spec fn payload_spec(line: Seq<u8>, k: nat, dlc: nat) -> Option<Seq<u8>> {
    if forall|i: int| 0 <= i < dlc ==> (#[trigger] hex_num_spec(line.subrange(k + 2 * i, k + 2 * i + 2))) is Some {
        Some(Seq::new(dlc, |i: int| hex_num_spec(line.subrange(k + 2 * i, k + 2 * i + 2)).unwrap() as u8))
    } else {
        None
    }
}

/// The frame a line (without its carriage return) carries, if it is a data
/// frame. RTR frames and status replies carry none.
pub open spec fn parse_line_spec(line: Seq<u8>) -> Option<FrameView> {
    if line.len() == 0 || (line[0] != 0x54 && line[0] != 0x74) {
        None
    } else {
        let n = id_len_of(line[0]);
        if line.len() < n + 2 {
            None
        } else {
            match (hex_num_spec(line.subrange(1, 1 + n as int)), hex_digit_value(line[1 + n as int])) {
                (Some(id), Some(dlc)) => {
                    if dlc > 8 || line.len() - (n + 2) < 2 * dlc {
                        None
                    } else {
                        match payload_spec(line, n + 2, dlc) {
                            Some(p) => Some(
                                FrameView {
                                    arbitration_id: id,
                                    data: padded8(p),
                                    dlc: dlc as u8,
                                    is_extended: line[0] == 0x54,
                                    is_rx: true,
                                },
                            ),
                            None => None,
                        }
                    }
                },
                _ => None,
            }
        }
    }
}

fn copy_range(v: &[u8], lo: usize, hi: usize) -> (r: Vec<u8>)
    requires
        lo <= hi <= v@.len(),
    ensures
        r@ == v@.subrange(lo as int, hi as int),
{
    let mut r: Vec<u8> = Vec::new();
    let mut i = lo;
    while i < hi
        invariant
            lo <= i <= hi <= v@.len(),
            r@ == v@.subrange(lo as int, i as int),
        decreases hi - i,
    {
        r.push(v[i]);
        assert(v@.subrange(lo as int, i + 1) =~= v@.subrange(lo as int, i as int).push(v@[i as int]));
        i = i + 1;
    }
    r
}

/// Parse one line (without its carriage return). Only data frames (`T`,
/// `t`) carry a payload; anything else yields `None`.
#[verifier::loop_isolation(false)]
pub fn parse_line(line: &[u8]) -> (r: Option<CanFrame>)
    ensures
        match r {
            Some(f) => parse_line_spec(line@) == Some(f@),
            None => parse_line_spec(line@) is None,
        },
{
    if line.len() == 0 {
        return None;
    }
    let first = line[0];
    let (is_extended, id_len) = if first == 0x54u8 {
        (true, 8usize)
    } else if first == 0x74u8 {
        (false, 3usize)
    } else {
        return None;
    };
    if line.len() < 1 + id_len + 1 {
        return None;
    }
    let id_digits = copy_range(line, 1, 1 + id_len);
    let arbitration_id = match hex_num(id_digits.as_slice()) {
        Some(v) => v,
        None => return None,
    };
    let dlc32 = match hex_val(line[1 + id_len]) {
        Some(v) => v,
        None => return None,
    };
    if dlc32 > 8 {
        return None;
    }
    let dlc = dlc32 as usize;
    let k = 2 + id_len;
    if line.len() - k < dlc * 2 {
        return None;
    }
    let mut data = [0u8;8];
    let mut i: usize = 0;
    while i < dlc
        invariant
            dlc <= 8,
            k <= 10,
            k + 2 * dlc <= line@.len(),
            i <= dlc,
            forall|m: int| 0 <= m < i ==> (#[trigger] hex_num_spec(line@.subrange(k + 2 * m, k + 2 * m + 2))) is Some
                && data@[m] == hex_num_spec(line@.subrange(k + 2 * m, k + 2 * m + 2)).unwrap() as u8,
            forall|m: int| i <= m < 8 ==> data@[m] == 0u8,
        decreases dlc - i,
    {
        let pair = copy_range(line, k + 2 * i, k + 2 * i + 2);
        match hex_num(pair.as_slice()) {
            Some(v) => {
                data[i] = v as u8;
            },
            None => {
                assert(!(forall|m: int| 0 <= m < dlc ==> (#[trigger] hex_num_spec(line@.subrange(k + 2 * m, k + 2 * m + 2))) is Some));
                return None;
            },
        }
        i = i + 1;
    }
    let frame = CanFrame { arbitration_id, data, dlc: dlc as u8, is_extended, is_rx: true };
    proof {
        let p = Seq::new(dlc as nat, |m: int| hex_num_spec(line@.subrange(k + 2 * m, k + 2 * m + 2)).unwrap() as u8);
        assert(payload_spec(line@, k as nat, dlc as nat) == Some(p));
        assert(frame@.data =~= padded8(p));
    }
    Some(frame)
}

/// Index of the first carriage return in `s`, or `s.len()` if there is none.
pub open spec fn find_cr(s: Seq<u8>) -> nat
    decreases s.len(),
{
    if s.len() == 0 {
        0
    } else if s[0] == CR {
        0
    } else {
        1 + find_cr(s.drop_first())
    }
}

/// What a receive buffer yields: lines are consumed one at a time until one
/// carries a data frame; without a complete data line, the remaining
/// partial line stays buffered unless it has grown beyond `MAX_PENDING`
/// bytes, in which case the buffer is discarded.
pub open spec fn rx_spec(s: Seq<u8>) -> (Option<FrameView>, Seq<u8>)
    decreases s.len(),
{
    let pos = find_cr(s);
    if pos < s.len() {
        match parse_line_spec(s.take(pos as int)) {
            Some(f) => (Some(f), s.skip(pos + 1 as int)),
            None => rx_spec(s.skip(pos + 1 as int)),
        }
    } else if s.len() > MAX_PENDING {
        (None, Seq::empty())
    } else {
        (None, s)
    }
}

proof fn lemma_find_cr(s: Seq<u8>)
    ensures
        find_cr(s) <= s.len(),
        find_cr(s) < s.len() ==> s[find_cr(s) as int] == CR,
        forall|i: int| 0 <= i < find_cr(s) ==> s[i] != CR,
    decreases s.len(),
{
    if s.len() > 0 && s[0] != CR {
        lemma_find_cr(s.drop_first());
        assert forall|i: int| 0 <= i < find_cr(s) implies s[i] != CR by {
            if i > 0 {
                assert(s[i] == s.drop_first()[i - 1]);
            }
        }
    }
}

/// Extract the next data frame from the receive buffer, skipping status
/// replies and RTR lines and keeping a partial line buffered.
pub fn try_parse_rx(buf: &mut VecDeque<u8>) -> (r: Option<CanFrame>)
    ensures
        final(buf)@ == rx_spec(old(buf)@).1,
        match r {
            Some(f) => rx_spec(old(buf)@).0 == Some(f@),
            None => rx_spec(old(buf)@).0 is None,
        },
{
    let ghost orig = buf@;
    loop
        invariant
            rx_spec(buf@) == rx_spec(orig),
            orig == old(buf)@,
        decreases buf@.len(),
    {
        proof {
            lemma_find_cr(buf@);
        }
        let mut pos: usize = 0;
        while pos < buf.len() && buf[pos] != CR
            invariant
                pos <= buf@.len(),
                pos <= find_cr(buf@),
                forall|i: int| 0 <= i < find_cr(buf@) ==> buf@[i] != CR,
                find_cr(buf@) < buf@.len() ==> buf@[find_cr(buf@) as int] == CR,
                find_cr(buf@) <= buf@.len(),
            decreases buf@.len() - pos,
        {
            pos = pos + 1;
        }
        if pos == buf.len() {
            if buf.len() > MAX_PENDING {
                buf.clear();
            }
            return None;
        }
        assert(pos == find_cr(buf@));
        let ghost s = buf@;
        let mut line: Vec<u8> = Vec::new();
        let mut k: usize = 0;
        while k < pos
            invariant
                k <= pos < s.len(),
                buf@ == s,
                line@ == s.take(k as int),
            decreases pos - k,
        {
            line.push(buf[k]);
            assert(s.take(k + 1) =~= s.take(k as int).push(s[k as int]));
            k = k + 1;
        }
        let total = pos + 1;
        let mut j: usize = 0;
        while j < total
            invariant
                j <= total,
                total == pos + 1,
                pos < s.len(),
                buf@ == s.skip(j as int),
            decreases total - j,
        {
            let _ = buf.pop_front();
            assert(s.skip(j as int).subrange(1, s.skip(j as int).len() as int) =~= s.skip(j + 1));
            j = j + 1;
        }
        assert(line@ == s.take(pos as int));
        if let Some(frame) = parse_line(line.as_slice()) {
            return Some(frame);
        }
    }
}

// ---------------------------------------------------------------------------
// Laws
// ---------------------------------------------------------------------------

/// The frame a receiver reconstructs from an encoded line: the first `dlc`
/// payload bytes padded with zeros, marked as received.
pub open spec fn received_form(f: FrameView) -> FrameView {
    FrameView {
        arbitration_id: f.arbitration_id,
        data: padded8(f.data.take(f.dlc as int)),
        dlc: f.dlc,
        is_extended: f.is_extended,
        is_rx: true,
    }
}

pub open spec fn pow16(w: nat) -> nat
    decreases w,
{
    if w == 0 {
        1
    } else {
        16 * pow16((w - 1) as nat)
    }
}

proof fn lemma_hex_digit(d: nat)
    requires
        d < 16,
    ensures
        hex_digit_value(hex_digit_byte(d)) == Some(d),
        hex_digit_byte(d) != CR,
{
}

proof fn lemma_hex_fixed(x: nat, w: nat)
    requires
        x < pow16(w),
    ensures
        hex_fixed(x, w).len() == w,
        all_hex(hex_fixed(x, w)),
        hex_value(hex_fixed(x, w)) == x,
        forall|i: int| 0 <= i < w ==> hex_fixed(x, w)[i] != CR,
    decreases w,
{
    if w > 0 {
        let p = pow16((w - 1) as nat);
        assert(x / 16 < p) by (nonlinear_arith)
            requires
                x < 16 * p,
        ;
        lemma_hex_fixed(x / 16, (w - 1) as nat);
        lemma_hex_digit(x % 16);
        let h = hex_fixed(x / 16, (w - 1) as nat);
        let full = hex_fixed(x, w);
        assert(full.drop_last() =~= h);
        assert forall|i: int| 0 <= i < full.len() implies (#[trigger] hex_digit_value(full[i])) is Some
            && full[i] != CR by {
            if i < h.len() {
                assert(full[i] == h[i]);
            }
        }
    }
}

proof fn lemma_hex_payload(d: Seq<u8>)
    ensures
        hex_payload(d).len() == 2 * d.len(),
        forall|i: int|
            0 <= i < d.len() ==> hex_payload(d).subrange(2 * i, 2 * i + 2) =~= hex_fixed(
                #[trigger] d[i] as nat,
                2,
            ),
        forall|j: int| 0 <= j < hex_payload(d).len() ==> hex_payload(d)[j] != CR,
    decreases d.len(),
{
    if d.len() > 0 {
        let init = d.drop_last();
        lemma_hex_payload(init);
        reveal_with_fuel(pow16, 3);
        assert(pow16(2) == 256);
        lemma_hex_fixed(d.last() as nat, 2);
        let hp = hex_payload(init);
        let last = hex_fixed(d.last() as nat, 2);
        let full = hex_payload(d);
        assert(full == hp + last);
        assert forall|i: int| 0 <= i < d.len() implies full.subrange(2 * i, 2 * i + 2) =~= hex_fixed(
            #[trigger] d[i] as nat,
            2,
        ) by {
            if i < init.len() {
                assert(d[i] == init[i]);
                assert(full.subrange(2 * i, 2 * i + 2) =~= hp.subrange(2 * i, 2 * i + 2));
            } else {
                assert(full.subrange(2 * i, 2 * i + 2) =~= last);
            }
        }
        assert forall|j: int| 0 <= j < full.len() implies full[j] != CR by {
            if j < hp.len() {
                assert(full[j] == hp[j]);
            } else {
                assert(full[j] == last[j - hp.len()]);
            }
        }
    }
}

proof fn lemma_find_cr_at(p: Seq<u8>, rest: Seq<u8>)
    requires
        forall|i: int| 0 <= i < p.len() ==> p[i] != CR,
    ensures
        find_cr(p.push(CR) + rest) == p.len(),
    decreases p.len(),
{
    let s = p.push(CR) + rest;
    if p.len() > 0 {
        assert(s.drop_first() =~= p.drop_first().push(CR) + rest);
        lemma_find_cr_at(p.drop_first(), rest);
    }
}

/// Round trip: a buffer that starts with the encoded line of a sendable
/// frame yields that frame in its received form, and keeps exactly the
/// bytes that followed the line.
pub proof fn law_encode_then_parse(f: FrameView, rest: Seq<u8>)
    requires
        encodable(f),
        f.data.len() == 8,
    ensures
        rx_spec(line_spec(f).push(CR) + rest) == (Some(received_form(f)), rest),
{
    let n: nat = if f.is_extended { 8 } else { 3 };
    let id_digits = hex_fixed(f.arbitration_id as nat, n);
    let head = if f.is_extended {
        seq![0x54u8] + id_digits
    } else {
        seq![0x74u8] + id_digits
    };
    let dlc = f.dlc as nat;
    let payload = f.data.take(dlc as int);
    let line = line_spec(f);
    reveal_with_fuel(pow16, 9);
    assert(pow16(2) == 256);
    assert(pow16(3) == 4096);
    assert(pow16(8) == 4294967296);
    lemma_hex_fixed(f.arbitration_id as nat, n);
    lemma_hex_payload(payload);
    assert(line == head.push((0x30 + f.dlc) as u8) + hex_payload(payload));
    assert(line.len() == n + 2 + 2 * dlc);
    assert forall|i: int| 0 <= i < line.len() implies line[i] != CR by {
        if 1 <= i < 1 + n {
            assert(line[i] == id_digits[i - 1]);
        } else if i >= n + 2 {
            assert(line[i] == hex_payload(payload)[i - (n + 2)]);
        }
    }
    lemma_find_cr_at(line, rest);
    let s = line.push(CR) + rest;
    assert(s.take(line.len() as int) =~= line);
    assert(s.skip(line.len() + 1 as int) =~= rest);
    // The line itself.
    assert(line[0] == if f.is_extended { 0x54u8 } else { 0x74u8 });
    assert(line.subrange(1, 1 + n as int) =~= id_digits);
    assert(hex_num_spec(line.subrange(1, 1 + n as int)) == Some(f.arbitration_id));
    assert(line[1 + n as int] == (0x30 + f.dlc) as u8);
    assert(hex_digit_value(line[1 + n as int]) == Some(dlc));
    let k = n + 2;
    assert forall|i: int| 0 <= i < dlc implies (#[trigger] hex_num_spec(line.subrange(k + 2 * i, k + 2 * i + 2)))
        == Some(payload[i] as u32) by {
        assert(line.subrange(k + 2 * i, k + 2 * i + 2) =~= hex_payload(payload).subrange(2 * i, 2 * i + 2));
        lemma_hex_fixed(payload[i] as nat, 2);
    }
    let p = Seq::new(dlc, |i: int| hex_num_spec(line.subrange(k + 2 * i, k + 2 * i + 2)).unwrap() as u8);
    assert(p =~= payload);
    assert(payload_spec(line, k, dlc) == Some(p));
    assert(parse_line_spec(line) == Some(received_form(f)));
}

/// A line that has not been terminated yet stays buffered, as long as it is
/// no longer than `MAX_PENDING` bytes.
pub proof fn law_unterminated_line_buffered(s: Seq<u8>)
    requires
        forall|i: int| 0 <= i < s.len() ==> s[i] != CR,
        s.len() <= MAX_PENDING,
    ensures
        rx_spec(s) == (None::<FrameView>, s),
{
    lemma_find_cr(s);
    if find_cr(s) < s.len() {
        assert(s[find_cr(s) as int] == CR);
    }
}

} // verus!
