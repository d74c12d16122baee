//! Request handling rules of the WebSocket gateway: operation names, model
//! placeholders, transports a vendor may open, and numeric ids given as
//! text.
use crate::bus::{parse_u32, parse_u32_spec, unsigned_digits, Transport};
use crate::slcan::{hex_num, hex_num_spec};
use crate::text::{ascii_lower_seq, has_prefix, starts_with, str_eq, to_ascii_lowercase, trim, trim_spec};
use vstd::prelude::*;

verus! {

/// RobStride position control flavour requested by an operation.
#[derive(Clone, Copy, Debug, PartialEq, Eq, Structural)]
pub enum RobstridePositionMode {
    /// Profile position (`pos_vel_pp`).
    Pp,
    /// Cyclic synchronous position (`pos_vel_csp`).
    Csp,
}

/// The RobStride position mode an operation name selects.
pub open spec fn position_mode_of_op(op: Seq<char>) -> Option<RobstridePositionMode> {
    if op == "pos_vel_pp"@ || op == "pos-vel-pp"@ {
        Some(RobstridePositionMode::Pp)
    } else if op == "pos_vel_csp"@ || op == "pos-vel-csp"@ {
        Some(RobstridePositionMode::Csp)
    } else {
        None
    }
}

/// The RobStride position mode an operation name selects, if any.
pub fn robstride_position_mode_for_op(op: &str) -> (r: Option<RobstridePositionMode>)
    ensures
        r == position_mode_of_op(op@),
{
    if str_eq(op, "pos_vel_pp") || str_eq(op, "pos-vel-pp") {
        Some(RobstridePositionMode::Pp)
    } else if str_eq(op, "pos_vel_csp") || str_eq(op, "pos-vel-csp") {
        Some(RobstridePositionMode::Csp)
    } else {
        None
    }
}

/// Whether a model name asks for automatic detection: once trimmed and
/// lowercased, empty, `auto`, `all` or `*`.
pub open spec fn model_is_auto_spec(model: Seq<char>) -> bool {
    let m = ascii_lower_seq(trim_spec(model));
    m.len() == 0 || m == "auto"@ || m == "all"@ || m == "*"@
}

pub fn model_is_auto(model: &str) -> (r: bool)
    ensures
        r == model_is_auto_spec(model@),
{
    let lower = to_ascii_lowercase(trim(model));
    let m = lower.as_str();
    m.unicode_len() == 0 || str_eq(m, "auto") || str_eq(m, "all") || str_eq(m, "*")
}

/// The transport a gateway target names.
#[derive(Clone, Copy, Debug, PartialEq, Eq, Structural)]
pub enum TargetTransport {
    Auto,
    SocketCan,
    SocketCanFd,
    DmSerial,
    DmDevice,
    McuSerial,
}

/// The bus transport HighTorque motors are opened on for a target, or the
/// reason the target cannot carry them.
pub open spec fn hightorque_transport_spec(t: TargetTransport) -> Result<Transport, Seq<char>> {
    match t {
        TargetTransport::Auto | TargetTransport::SocketCan => Ok(Transport::SocketCan),
        TargetTransport::SocketCanFd => Err("hightorque currently uses standard CAN transport only"@),
        TargetTransport::DmSerial => Err("transport dm-serial is damiao-only"@),
        TargetTransport::DmDevice => Err("transport dm-device is damiao-only"@),
        TargetTransport::McuSerial => Ok(Transport::McuSerial),
    }
}

/// The bus transport to open for HighTorque motors on a target.
pub fn hightorque_bus_transport(t: TargetTransport) -> (r: Result<Transport, &'static str>)
    ensures
        match r {
            Ok(x) => hightorque_transport_spec(t) == Ok::<Transport, Seq<char>>(x),
            Err(m) => hightorque_transport_spec(t) == Err::<Transport, Seq<char>>(m@),
        },
{
    match t {
        TargetTransport::Auto | TargetTransport::SocketCan => Ok(Transport::SocketCan),
        TargetTransport::SocketCanFd => Err("hightorque currently uses standard CAN transport only"),
        TargetTransport::DmSerial => Err("transport dm-serial is damiao-only"),
        TargetTransport::DmDevice => Err("transport dm-device is damiao-only"),
        TargetTransport::McuSerial => Ok(Transport::McuSerial),
    }
}

/// The bytes of a string of ASCII characters.
pub open spec fn ascii_bytes(s: Seq<char>) -> Seq<u8> {
    Seq::new(s.len(), |i: int| s[i] as u8)
}

/// Whether every character is ASCII.
pub open spec fn all_ascii(s: Seq<char>) -> bool {
    forall|i: int| 0 <= i < s.len() ==> (#[trigger] s[i] as u32) < 128
}

/// What `u16::from_str_radix(_, 16)` accepts: an optional `+`, then at
/// least one hex digit (either case) and nothing else, of a value that
/// fits.
pub open spec fn parse_hex_u16_spec(s: Seq<char>) -> Option<u16> {
    let d = unsigned_digits(s);
    if d.len() > 0 && all_ascii(d) {
        match hex_num_spec(ascii_bytes(d)) {
            Some(v) => if v <= 0xFFFF {
                Some(v as u16)
            } else {
                None
            },
            None => None,
        }
    } else {
        None
    }
}

/// A 16-bit id written as text: trimmed, then hex after `0x`/`0X`, else
/// decimal, either with an optional `+`.
pub open spec fn parse_u16_text_spec(s: Seq<char>) -> Option<u16> {
    let t = trim_spec(s);
    if has_prefix(t, "0x"@) || has_prefix(t, "0X"@) {
        parse_hex_u16_spec(t.skip(2))
    } else {
        match parse_u32_spec(t) {
            Some(v) => if v <= 0xFFFF {
                Some(v as u16)
            } else {
                None
            },
            None => None,
        }
    }
}

fn parse_hex_u16(s: &str) -> (r: Option<u16>)
    ensures
        r == parse_hex_u16_spec(s@),
{
    let n = s.unicode_len();
    let mut start: usize = 0;
    if n > 0 && s.get_char(0) == '+' {
        start = 1;
    }
    let ghost d = unsigned_digits(s@);
    assert(d =~= s@.skip(start as int));
    if start == n {
        return None;
    }
    let mut bytes: Vec<u8> = Vec::new();
    let mut i: usize = start;
    while i < n
        invariant
            start <= i <= n == s@.len(),
            d == s@.skip(start as int),
            d == unsigned_digits(s@),
            all_ascii(d.take(i - start)),
            bytes@ =~= ascii_bytes(d.take(i - start)),
        decreases n - i,
    {
        let c = s.get_char(i);
        assert(c == d[i - start]);
        if (c as u32) >= 128 {
            return None;
        }
        bytes.push(c as u8);
        proof {
            let t = d.take(i - start + 1);
            assert(t.take(i - start) =~= d.take(i - start));
            assert forall|k: int| 0 <= k < t.len() implies (#[trigger] t[k] as u32) < 128 by {
                if k < i - start {
                    assert(d.take(i - start)[k] == t[k]);
                }
            }
        }
        i = i + 1;
    }
    assert(d.take(n - start) =~= d);
    match hex_num(bytes.as_slice()) {
        Some(v) => if v <= 0xFFFF {
            Some(v as u16)
        } else {
            None
        },
        None => None,
    }
}

/// Read a 16-bit id written as text (`"0x1A"`, `"26"`).
pub fn parse_u16_text(s: &str) -> (r: Option<u16>)
    ensures
        r == parse_u16_text_spec(s@),
{
    let t = trim(s);
    if starts_with(t, "0x") || starts_with(t, "0X") {
        proof {
            reveal_strlit("0x");
            reveal_strlit("0X");
        }
        let n = t.unicode_len();
        let rest = t.substring_char(2, n);
        assert(rest@ =~= t@.skip(2));
        parse_hex_u16(rest)
    } else {
        match parse_u32(t) {
            Some(v) => if v <= 0xFFFF {
                Some(v as u16)
            } else {
                None
            },
            None => None,
        }
    }
}

} // verus!
