//! Command-line value parsing: integers as `str::parse` reads them, and the
//! 4 raw bytes of a parameter value given with its type.
use crate::bus::is_digit;
use vstd::prelude::*;

verus! {

/// Why a decimal integer was refused.
#[derive(Debug, Clone, Copy, PartialEq, Eq, Structural)]
pub enum IntErrorKind {
    /// The text is empty.
    Empty,
    /// A character is not a digit (or a sign stands alone).
    InvalidDigit,
    /// The value is above the type's maximum.
    PosOverflow,
    /// The value is below the type's minimum.
    NegOverflow,
}

/// The message of a refused integer.
pub open spec fn int_error_text(k: IntErrorKind) -> Seq<char> {
    match k {
        IntErrorKind::Empty => "cannot parse integer from empty string"@,
        IntErrorKind::InvalidDigit => "invalid digit found in string"@,
        IntErrorKind::PosOverflow => "number too large to fit in target type"@,
        IntErrorKind::NegOverflow => "number too small to fit in target type"@,
    }
}

pub fn int_error_message(k: IntErrorKind) -> (r: &'static str)
    ensures
        r@ == int_error_text(k),
{
    match k {
        IntErrorKind::Empty => "cannot parse integer from empty string",
        IntErrorKind::InvalidDigit => "invalid digit found in string",
        IntErrorKind::PosOverflow => "number too large to fit in target type",
        IntErrorKind::NegOverflow => "number too small to fit in target type",
    }
}

/// Reading the digits `d[i..]` onto the magnitude `acc`, left to right:
/// each character must be a digit (checked first), and the value so far
/// must stay within `lo..=hi`.
pub open spec fn scan_digits(d: Seq<char>, negative: bool, lo: int, hi: int, i: int, acc: int) -> Result<int, IntErrorKind>
    decreases d.len() - i,
{
    if i < 0 || i >= d.len() {
        Ok(if negative { -acc } else { acc })
    } else if !is_digit(d[i]) {
        Err(IntErrorKind::InvalidDigit)
    } else {
        let next = acc * 10 + ((d[i] as u32) - 0x30);
        if !negative && next > hi {
            Err(IntErrorKind::PosOverflow)
        } else if negative && -next < lo {
            Err(IntErrorKind::NegOverflow)
        } else {
            scan_digits(d, negative, lo, hi, i + 1, next)
        }
    }
}

/// A decimal integer of the type with range `lo..=hi`, as `str::parse`
/// reads it: an optional `+` (or `-` for a signed type) and digits only.
pub open spec fn parse_int_spec(s: Seq<char>, lo: int, hi: int, signed: bool) -> Result<int, IntErrorKind> {
    if s.len() == 0 {
        Err(IntErrorKind::Empty)
    } else if (s[0] == '+' || s[0] == '-') && s.len() == 1 {
        Err(IntErrorKind::InvalidDigit)
    } else {
        let negative = signed && s[0] == '-';
        let d = if s[0] == '+' || negative { s.drop_first() } else { s };
        scan_digits(d, negative, lo, hi, 0, 0)
    }
}

/// Read a decimal integer of the type with range `lo..=hi`.
pub fn parse_int(s: &str, lo: i64, hi: i64, signed: bool) -> (r: Result<i64, IntErrorKind>)
    requires
        -0x1_0000_0000 <= lo <= 0 <= hi <= 0x1_0000_0000,
    ensures
        match r {
            Ok(v) => parse_int_spec(s@, lo as int, hi as int, signed) == Ok::<int, IntErrorKind>(v as int),
            Err(k) => parse_int_spec(s@, lo as int, hi as int, signed) == Err::<int, IntErrorKind>(k),
        },
{
    let n = s.unicode_len();
    if n == 0 {
        return Err(IntErrorKind::Empty);
    }
    let c0 = s.get_char(0);
    if (c0 == '+' || c0 == '-') && n == 1 {
        return Err(IntErrorKind::InvalidDigit);
    }
    let negative = signed && c0 == '-';
    let start: usize = if c0 == '+' || negative { 1 } else { 0 };
    let ghost d = if s@[0] == '+' || negative { s@.drop_first() } else { s@ };
    assert(d =~= s@.skip(start as int));
    let mut acc: i64 = 0;
    let mut i: usize = start;
    assert(parse_int_spec(s@, lo as int, hi as int, signed) == scan_digits(d, negative, lo as int, hi as int, 0, 0));
    while i < n
        invariant
            start <= i <= n == s@.len(),
            start <= 1,
            d == s@.skip(start as int),
            -0x1_0000_0000 <= lo <= 0 <= hi <= 0x1_0000_0000,
            0 <= acc <= 0x1_0000_0000,
            parse_int_spec(s@, lo as int, hi as int, signed) == scan_digits(
                d,
                negative,
                lo as int,
                hi as int,
                i - start,
                acc as int,
            ),
        decreases n - i,
    {
        let c = s.get_char(i);
        assert(c == d[i - start]);
        if c < '0' || c > '9' {
            return Err(IntErrorKind::InvalidDigit);
        }
        let next = acc * 10 + ((c as u32) - 0x30) as i64;
        if !negative && next > hi {
            return Err(IntErrorKind::PosOverflow);
        }
        if negative && -next < lo {
            return Err(IntErrorKind::NegOverflow);
        }
        acc = next;
        i = i + 1;
    }
    if negative {
        Ok(-acc)
    } else {
        Ok(acc)
    }
}

/// A parameter value given on the command line, as the bytes to write.
#[derive(Debug, Clone, Copy, PartialEq, Eq)]
pub enum ParamBytes {
    /// The little-endian bytes of an integer value, zero-padded to 4.
    Int([u8; 4]),
    /// A float value (`f32`/`float`): the text is read as an `f32`.
    Float,
}

/// Byte `k` (0-3) of the 32-bit two's complement form of `v`.
pub open spec fn byte_of(v: int, k: int) -> u8 {
    let w = v % 0x1_0000_0000;
    (if k == 0 {
        w % 256
    } else if k == 1 {
        (w / 0x100) % 256
    } else if k == 2 {
        (w / 0x1_0000) % 256
    } else {
        (w / 0x100_0000) % 256
    }) as u8
}

/// The 4 bytes of `v` written little-endian on `width` bytes, zero-padded.
pub open spec fn le_padded(v: int, width: int) -> Seq<u8> {
    Seq::new(4, |k: int| if k < width { byte_of(v, k) } else { 0u8 })
}

/// Range, signedness and width in bytes of an integer type name.
pub open spec fn int_type_of(ty: Seq<char>) -> Option<(int, int, bool, int)> {
    if ty == "u8"@ {
        Some((0, 0xFF, false, 1))
    } else if ty == "i8"@ {
        Some((-0x80, 0x7F, true, 1))
    } else if ty == "u16"@ {
        Some((0, 0xFFFF, false, 2))
    } else if ty == "i16"@ {
        Some((-0x8000, 0x7FFF, true, 2))
    } else if ty == "u32"@ {
        Some((0, 0xFFFF_FFFF, false, 4))
    } else if ty == "i32"@ {
        Some((-0x8000_0000, 0x7FFF_FFFF, true, 4))
    } else {
        None
    }
}

/// What a parameter value given as text with its type name stands for.
pub open spec fn param_value_bytes_spec(ty: Seq<char>, raw: Seq<char>) -> Result<Option<Seq<u8>>, Seq<char>> {
    if ty == "f32"@ || ty == "float"@ {
        Ok(None)
    } else {
        match int_type_of(ty) {
            Some((lo, hi, signed, width)) => match parse_int_spec(raw, lo, hi, signed) {
                Ok(v) => Ok(Some(le_padded(v, width))),
                Err(k) => Err("invalid --param-value "@ + ty + ": "@ + int_error_text(k)),
            },
            None => Err("invalid --param-type "@ + ty + ", expected f32|u8|i8|u16|i16|u32|i32"@),
        }
    }
}

/// The meaning of a parsed parameter value: `None` for a float.
pub open spec fn param_bytes_view(p: ParamBytes) -> Option<Seq<u8>> {
    match p {
        ParamBytes::Int(b) => Some(b@),
        ParamBytes::Float => None,
    }
}

fn le_bytes_of(v: i64, width: usize) -> (r: [u8; 4])
    requires
        -0x8000_0000 <= v <= 0xFFFF_FFFF,
        1 <= width <= 4,
    ensures
        r@ == le_padded(v as int, width as int),
{
    let w: u32 = if v < 0 { (v + 0x1_0000_0000) as u32 } else { v as u32 };
    assert(w as int == (v as int) % 0x1_0000_0000);
    let b0 = (w & 0xFF) as u8;
    let b1 = if width > 1 { ((w >> 8) & 0xFF) as u8 } else { 0 };
    let b2 = if width > 2 { ((w >> 16) & 0xFF) as u8 } else { 0 };
    let b3 = if width > 3 { ((w >> 24) & 0xFF) as u8 } else { 0 };
    assert((w & 0xFF) == w % 256) by (bit_vector);
    assert(((w >> 8) & 0xFF) == (w / 0x100) % 256) by (bit_vector);
    assert(((w >> 16) & 0xFF) == (w / 0x1_0000) % 256) by (bit_vector);
    assert(((w >> 24) & 0xFF) == (w / 0x100_0000) % 256) by (bit_vector);
    let r = [b0, b1, b2, b3];
    assert(r@ =~= le_padded(v as int, width as int));
    r
}

/// The bytes of a parameter value given as text with its type name
/// (`u8`, `i8`, `u16`, `i16`, `u32`, `i32`, or `f32`/`float` for a float).
pub fn param_value_bytes(ty: &str, raw: &str) -> (r: Result<ParamBytes, String>)
    ensures
        match r {
            Ok(p) => param_value_bytes_spec(ty@, raw@) == Ok::<Option<Seq<u8>>, Seq<char>>(param_bytes_view(p)),
            Err(m) => param_value_bytes_spec(ty@, raw@) == Err::<Option<Seq<u8>>, Seq<char>>(m@),
        },
{
    if crate::text::str_eq(ty, "f32") || crate::text::str_eq(ty, "float") {
        return Ok(ParamBytes::Float);
    }
    let (lo, hi, signed, width): (i64, i64, bool, usize) = if crate::text::str_eq(ty, "u8") {
        (0, 0xFF, false, 1)
    } else if crate::text::str_eq(ty, "i8") {
        (-0x80, 0x7F, true, 1)
    } else if crate::text::str_eq(ty, "u16") {
        (0, 0xFFFF, false, 2)
    } else if crate::text::str_eq(ty, "i16") {
        (-0x8000, 0x7FFF, true, 2)
    } else if crate::text::str_eq(ty, "u32") {
        (0, 0xFFFF_FFFF, false, 4)
    } else if crate::text::str_eq(ty, "i32") {
        (-0x8000_0000, 0x7FFF_FFFF, true, 4)
    } else {
        let mut m = String::from_str("invalid --param-type ");
        m.append(ty);
        m.append(", expected f32|u8|i8|u16|i16|u32|i32");
        return Err(m);
    };
    assert(int_type_of(ty@) == Some((lo as int, hi as int, signed, width as int)));
    match parse_int(raw, lo, hi, signed) {
        Ok(v) => {
            proof {
                law_parse_in_range(raw@, lo as int, hi as int, signed);
            }
            Ok(ParamBytes::Int(le_bytes_of(v, width)))
        },
        Err(k) => {
            let mut m = String::from_str("invalid --param-value ");
            m.append(ty);
            m.append(": ");
            m.append(int_error_message(k));
            Err(m)
        },
    }
}

proof fn lemma_scan_in_range(d: Seq<char>, negative: bool, lo: int, hi: int, i: int, acc: int)
    requires
        lo <= 0 <= hi,
        0 <= acc,
        negative ==> -acc >= lo,
        !negative ==> acc <= hi,
    ensures
        scan_digits(d, negative, lo, hi, i, acc) matches Ok(v) ==> lo <= v <= hi,
    decreases d.len() - i,
{
    if 0 <= i < d.len() && is_digit(d[i]) {
        let next = acc * 10 + ((d[i] as u32) - 0x30);
        if !(!negative && next > hi) && !(negative && -next < lo) {
            lemma_scan_in_range(d, negative, lo, hi, i + 1, next);
        }
    }
}

/// An integer that is read lies within its type's range.
pub proof fn law_parse_in_range(s: Seq<char>, lo: int, hi: int, signed: bool)
    requires
        lo <= 0 <= hi,
    ensures
        parse_int_spec(s, lo, hi, signed) matches Ok(v) ==> lo <= v <= hi,
{
    if s.len() > 0 && !((s[0] == '+' || s[0] == '-') && s.len() == 1) {
        let negative = signed && s[0] == '-';
        let d = if s[0] == '+' || negative { s.drop_first() } else { s };
        lemma_scan_in_range(d, negative, lo, hi, 0, 0);
    }
}

} // verus!
