//! Transport selection: which CAN driver a channel name or transport name
//! calls for, and the parameters every transport is opened with.
use crate::error::MotorError;
use crate::slcan::DEFAULT_BITRATE;
use crate::text::{has_prefix, starts_with, str_eq, trim, trim_spec};
use vstd::prelude::*;

verus! {

/// Prefix that selects the slcan (LAWICEL ASCII) serial transport.
pub const SLCAN_PREFIX: &'static str = "slcan:";

/// The platform `CanBus` driver to open for a transport.
#[derive(Clone, Copy, Debug, PartialEq, Eq, Structural)]
pub enum Transport {
    SocketCan,
    SocketCanFd,
    McuSerial,
    DmSerial,
}

/// The name a transport is written as.
pub open spec fn transport_name(t: Transport) -> Seq<char> {
    match t {
        Transport::SocketCan => "socketcan"@,
        Transport::SocketCanFd => "socketcanfd"@,
        Transport::McuSerial => "mcu-serial"@,
        Transport::DmSerial => "dm-serial"@,
    }
}

/// The transport an already lowercased name denotes.
pub open spec fn transport_named(lower: Seq<char>) -> Option<Transport> {
    if lower == "socketcan"@ {
        Some(Transport::SocketCan)
    } else if lower == "socketcanfd"@ {
        Some(Transport::SocketCanFd)
    } else if lower == "mcu-serial"@ {
        Some(Transport::McuSerial)
    } else if lower == "dm-serial"@ {
        Some(Transport::DmSerial)
    } else {
        None
    }
}

pub open spec fn unsupported_transport_message(name: Seq<char>) -> Seq<char> {
    "unsupported transport: "@ + name + " (expected socketcan|socketcanfd|mcu-serial|dm-serial)"@
}

/// The Unicode lowercase mapping of a string, as `str::to_lowercase`
/// computes it.
pub uninterp spec fn unicode_lowercase(s: Seq<char>) -> Seq<char>;

/// `str::to_lowercase`: its result is the lowercase mapping of the
/// argument, and depends on nothing else. The mapping itself (Unicode's
/// `Lowercase` property and special casing) is not stated here.
#[verifier::external_body]
fn to_lowercase(s: &str) -> (r: String)
    ensures
        r@ == unicode_lowercase(s@),
{
    s.to_lowercase()
}

impl Transport {
    /// Parse a transport name, ignoring case.
    pub fn from_str(s: &str) -> (r: Result<Transport, MotorError>)
        ensures
            r matches Ok(t) ==> transport_named(unicode_lowercase(s@)) == Some(t),
            r is Err ==> transport_named(unicode_lowercase(s@)) is None,
            r matches Err(e) ==> e matches MotorError::InvalidArgument(m) && m@
                == unsupported_transport_message(s@),
    {
        let lower = to_lowercase(s);
        Transport::from_lowercase(lower.as_str(), s)
    }

    /// Parse a transport name already mapped to lowercase; `given` is
    /// the name as given, for the error message.
    pub fn from_lowercase(lower: &str, given: &str) -> (r: Result<Transport, MotorError>)
        ensures
            r matches Ok(t) ==> transport_named(lower@) == Some(t),
            r is Err ==> transport_named(lower@) is None,
            r matches Err(e) ==> e matches MotorError::InvalidArgument(m) && m@
                == unsupported_transport_message(given@),
    {
        if str_eq(lower, "socketcan") {
            Ok(Transport::SocketCan)
        } else if str_eq(lower, "socketcanfd") {
            Ok(Transport::SocketCanFd)
        } else if str_eq(lower, "mcu-serial") {
            Ok(Transport::McuSerial)
        } else if str_eq(lower, "dm-serial") {
            Ok(Transport::DmSerial)
        } else {
            let mut m = String::new();
            m.append("unsupported transport: ");
            m.append(given);
            m.append(" (expected socketcan|socketcanfd|mcu-serial|dm-serial)");
            Err(MotorError::InvalidArgument(m))
        }
    }

    pub fn as_str(self) -> (r: &'static str)
        ensures
            r@ == transport_name(self),
    {
        match self {
            Transport::SocketCan => "socketcan",
            Transport::SocketCanFd => "socketcanfd",
            Transport::McuSerial => "mcu-serial",
            Transport::DmSerial => "dm-serial",
        }
    }
}

/// A transport's name, once lowercased, reads back as that transport.
pub proof fn law_transport_name_round_trip(t: Transport)
    ensures
        transport_named(transport_name(t)) == Some(t),
{
    reveal_strlit("socketcan");
    reveal_strlit("socketcanfd");
    reveal_strlit("mcu-serial");
    reveal_strlit("dm-serial");
    assert("socketcan"@.len() != "socketcanfd"@.len());
    assert("socketcan"@[0] != "mcu-serial"@[0]);
    assert("socketcan"@[0] != "dm-serial"@[0]);
    assert("socketcanfd"@[0] != "mcu-serial"@[0]);
    assert("socketcanfd"@[0] != "dm-serial"@[0]);
    assert("mcu-serial"@[0] != "dm-serial"@[0]);
}

/// Parameters needed to open any transport. `channel` is used by the
/// SocketCAN family; `serial_port`/`serial_baud` by the serial bridges.
/// Fields a transport does not use are ignored.
#[derive(Clone, Debug, Default)]
pub struct TransportParams<'a> {
    pub channel: &'a str,
    pub serial_port: &'a str,
    pub serial_baud: u32,
}

// ---------------------------------------------------------------------------
// Channel names
// ---------------------------------------------------------------------------

/// The CAN driver a channel name selects.
#[derive(Debug)]
pub enum CanBackend {
    /// An slcan adapter on a serial port, at the given CAN bitrate.
    Slcan { port: String, bitrate: u32 },
    /// The platform's classic-CAN driver (SocketCAN on Linux, PCAN on
    /// Windows and macOS) on the named channel.
    Platform { channel: String },
}

pub open spec fn is_digit(c: char) -> bool {
    '0' <= c <= '9'
}

/// Value of a sequence of decimal digits.
pub open spec fn digits_value(s: Seq<char>) -> nat
    decreases s.len(),
{
    if s.len() == 0 {
        0
    } else {
        10 * digits_value(s.drop_last()) + ((s.last() as u32) - 0x30) as nat
    }
}

/// Whether every character is a decimal digit.
pub open spec fn all_digits(d: Seq<char>) -> bool {
    forall|i: int| 0 <= i < d.len() ==> is_digit(#[trigger] d[i])
}

/// The digits of an unsigned number: `s` without one leading `+`.
pub open spec fn unsigned_digits(s: Seq<char>) -> Seq<char> {
    if s.len() > 0 && s[0] == '+' {
        s.drop_first()
    } else {
        s
    }
}

/// What `str::parse::<u32>` accepts: an optional `+`, then at least one
/// decimal digit and nothing else, of a value that fits.
pub open spec fn parse_u32_spec(s: Seq<char>) -> Option<u32> {
    let d = unsigned_digits(s);
    if d.len() > 0 && all_digits(d) && digits_value(d) <= u32::MAX {
        Some(digits_value(d) as u32)
    } else {
        None
    }
}

proof fn lemma_digits_value_monotone(s: Seq<char>, i: int, j: int)
    requires
        0 <= i <= j <= s.len(),
    ensures
        digits_value(s.take(i)) <= digits_value(s.take(j)),
    decreases j - i,
{
    if i < j {
        lemma_digits_value_monotone(s, i, j - 1);
        assert(s.take(j).drop_last() =~= s.take(j - 1));
    }
}

/// Decimal u32 as `str::parse::<u32>` reads it.
pub fn parse_u32(s: &str) -> (r: Option<u32>)
    ensures
        r == parse_u32_spec(s@),
{
    let n = s.unicode_len();
    let mut i: usize = 0;
    if n > 0 && s.get_char(0) == '+' {
        i = 1;
    }
    let ghost d = unsigned_digits(s@);
    if i == n {
        return None;
    }
    let start = i;
    let mut acc: u32 = 0;
    assert(d =~= s@.skip(start as int));
    assert(d.take(0) =~= Seq::<char>::empty());
    while i < n
        invariant
            start <= i <= n == s@.len(),
            start < n,
            d == s@.skip(start as int),
            d == unsigned_digits(s@),
            forall|k: int| 0 <= k < i - start ==> is_digit(#[trigger] d[k]),
            acc == digits_value(d.take(i - start)),
        decreases n - i,
    {
        let c = s.get_char(i);
        assert(c == d[i - start]);
        if c < '0' || c > '9' {
            assert(!is_digit(d[i - start]));
            return None;
        }
        let dv = (c as u32) - 0x30;
        assert(d.take(i - start + 1).drop_last() =~= d.take(i - start));
        if acc > (u32::MAX - dv) / 10 {
            proof {
                assert(acc * 10 + dv > u32::MAX) by (nonlinear_arith)
                    requires
                        acc > (u32::MAX - dv) / 10,
                        dv < 10,
                ;
                lemma_digits_value_monotone(d, i - start + 1, d.len() as int);
                assert(d.take(d.len() as int) =~= d);
            }
            return None;
        }
        acc = acc * 10 + dv;
        i = i + 1;
    }
    assert(d.take(d.len() as int) =~= d);
    Some(acc)
}

/// Index of the last `@` in `s`, if any.
pub open spec fn last_at(s: Seq<char>) -> Option<int>
    decreases s.len(),
{
    if s.len() == 0 {
        None
    } else if s.last() == '@' {
        Some(s.len() - 1)
    } else {
        last_at(s.drop_last())
    }
}

pub open spec fn bad_bitrate_message(rate: Seq<char>) -> Seq<char> {
    "invalid slcan bitrate '"@ + rate + "', expected bit/s such as 1000000"@
}

pub open spec fn empty_port_message() -> Seq<char> {
    "empty slcan port, expected slcan:<port>[@<bitrate>]"@
}

/// What an slcan specification `<port>[@<bitrate>]` denotes once trimmed:
/// the port and the bitrate (the default when no `@` is present), or the
/// error message.
pub open spec fn slcan_spec_parse(spec: Seq<char>) -> Result<(Seq<char>, u32), Seq<char>> {
    let t = trim_spec(spec);
    let (port, rate) = match last_at(t) {
        Some(k) => (t.take(k), Some(t.skip(k + 1))),
        None => (t, None),
    };
    match rate {
        Some(r) => match parse_u32_spec(r) {
            None => Err(bad_bitrate_message(r)),
            Some(b) => if port.len() == 0 {
                Err(empty_port_message())
            } else {
                Ok((port, b))
            },
        },
        None => if port.len() == 0 {
            Err(empty_port_message())
        } else {
            Ok((port, DEFAULT_BITRATE))
        },
    }
}

proof fn lemma_last_at(s: Seq<char>)
    ensures
        last_at(s) matches Some(k) ==> 0 <= k < s.len() && s[k] == '@',
    decreases s.len(),
{
    if s.len() > 0 && s.last() != '@' {
        lemma_last_at(s.drop_last());
    }
}

fn find_last_at(s: &str) -> (r: Option<usize>)
    ensures
        r matches Some(k) ==> last_at(s@) == Some(k as int),
        r is None ==> last_at(s@) is None,
{
    let n = s.unicode_len();
    let mut j: usize = n;
    assert(s@.take(n as int) =~= s@);
    while j > 0
        invariant
            j <= n == s@.len(),
            last_at(s@) == last_at(s@.take(j as int)),
        decreases j,
    {
        if s.get_char(j - 1) == '@' {
            return Some(j - 1);
        }
        assert(s@.take(j as int).drop_last() =~= s@.take(j - 1));
        j = j - 1;
    }
    None
}

/// Parse `<port>[@<bitrate>]`, for example `/dev/ttyACM0`,
/// `/dev/cu.usbmodem1234@1000000` or `COM5@500000`.
pub fn parse_slcan_spec(spec: &str) -> (r: Result<(String, u32), MotorError>)
    ensures
        slcan_spec_parse(spec@) matches Ok((port, bitrate)) ==> (r matches Ok((p, b)) && p@ == port
            && b == bitrate),
        slcan_spec_parse(spec@) matches Err(msg) ==> (r matches Err(MotorError::InvalidArgument(m))
            && m@ == msg),
{
    let t = trim(spec);
    let n = t.unicode_len();
    proof {
        lemma_last_at(t@);
    }
    let (port, bitrate) = match find_last_at(t) {
        Some(k) => {
            let rate = t.substring_char(k + 1, n);
            let parsed = match parse_u32(rate) {
                Some(b) => b,
                None => {
                    let mut m = String::new();
                    m.append("invalid slcan bitrate '");
                    m.append(rate);
                    m.append("', expected bit/s such as 1000000");
                    assert(rate@ =~= t@.skip(k + 1));
                    return Err(MotorError::InvalidArgument(m));
                },
            };
            assert(rate@ =~= t@.skip(k + 1));
            (t.substring_char(0, k), parsed)
        },
        None => {
            assert(t@.subrange(0, n as int) =~= t@);
            (t.substring_char(0, n), DEFAULT_BITRATE)
        },
    };
    if port.unicode_len() == 0 {
        return Err(MotorError::InvalidArgument(String::from_str("empty slcan port, expected slcan:<port>[@<bitrate>]")));
    }
    assert(port@ =~= match last_at(t@) {
        Some(k) => t@.take(k),
        None => t@,
    });
    Ok((String::from_str(port), bitrate))
}

/// Select the CAN driver for a channel name (what `open_can_bus` opens).
pub fn select_can_backend(channel: &str) -> (r: Result<CanBackend, MotorError>)
    ensures
        has_prefix(channel@, "slcan:"@) ==> match slcan_spec_parse(channel@.skip(6)) {
            Ok((port, bitrate)) => r matches Ok(CanBackend::Slcan { port: p, bitrate: b }) && p@
                == port && b == bitrate,
            Err(msg) => r matches Err(MotorError::InvalidArgument(m)) && m@ == msg,
        },
        !has_prefix(channel@, "slcan:"@) ==> (r matches Ok(CanBackend::Platform { channel: c })
            && c@ == channel@),
{
    proof {
        reveal_strlit("slcan:");
    }
    if starts_with(channel, SLCAN_PREFIX) {
        let n = channel.unicode_len();
        let spec = channel.substring_char(6, n);
        assert(spec@ =~= channel@.skip(6));
        match parse_slcan_spec(spec) {
            Ok((port, bitrate)) => Ok(CanBackend::Slcan { port, bitrate }),
            Err(e) => Err(e),
        }
    } else {
        Ok(CanBackend::Platform { channel: String::from_str(channel) })
    }
}

} // verus!
