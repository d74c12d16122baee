use motorbridge::cli::{int_error_message, param_value_bytes, parse_int, IntErrorKind, ParamBytes};

fn std_kind(e: &std::num::ParseIntError) -> IntErrorKind {
    match e.kind() {
        std::num::IntErrorKind::Empty => IntErrorKind::Empty,
        std::num::IntErrorKind::InvalidDigit => IntErrorKind::InvalidDigit,
        std::num::IntErrorKind::PosOverflow => IntErrorKind::PosOverflow,
        std::num::IntErrorKind::NegOverflow => IntErrorKind::NegOverflow,
        _ => panic!("unexpected kind"),
    }
}

const SAMPLES: &[&str] = &[
    "", "+", "-", "0", "7", "+7", "-7", "255", "256", "-128", "-129", "127", "128", "65535",
    "65536", "-32768", "-32769", "4294967295", "4294967296", "2147483647", "-2147483648",
    "-2147483649", "12a", "a12", " 1", "1 ", "--1", "+-1", "-+1", "99999999999x", "007",
    "-0", "+0", "٣",
];

#[test]
fn integers_read_as_std_reads_them() {
    for s in SAMPLES {
        let ours = parse_int(s, 0, 255, false);
        match s.parse::<u8>() {
            Ok(v) => assert_eq!(ours, Ok(v as i64), "u8 {s:?}"),
            Err(e) => assert_eq!(ours, Err(std_kind(&e)), "u8 {s:?}"),
        }
        let ours = parse_int(s, -128, 127, true);
        match s.parse::<i8>() {
            Ok(v) => assert_eq!(ours, Ok(v as i64), "i8 {s:?}"),
            Err(e) => assert_eq!(ours, Err(std_kind(&e)), "i8 {s:?}"),
        }
        let ours = parse_int(s, 0, 0xFFFF_FFFF, false);
        match s.parse::<u32>() {
            Ok(v) => assert_eq!(ours, Ok(v as i64), "u32 {s:?}"),
            Err(e) => assert_eq!(ours, Err(std_kind(&e)), "u32 {s:?}"),
        }
        let ours = parse_int(s, -0x8000_0000, 0x7FFF_FFFF, true);
        match s.parse::<i32>() {
            Ok(v) => assert_eq!(ours, Ok(v as i64), "i32 {s:?}"),
            Err(e) => assert_eq!(ours, Err(std_kind(&e)), "i32 {s:?}"),
        }
        if let Err(e) = s.parse::<i16>() {
            assert_eq!(int_error_message(std_kind(&e)), e.to_string());
        }
    }
}

#[test]
fn parameter_values_as_bytes() {
    assert_eq!(param_value_bytes("u8", "200"), Ok(ParamBytes::Int([200, 0, 0, 0])));
    assert_eq!(param_value_bytes("i8", "-1"), Ok(ParamBytes::Int([0xFF, 0, 0, 0])));
    assert_eq!(param_value_bytes("u16", "258"), Ok(ParamBytes::Int([2, 1, 0, 0])));
    assert_eq!(param_value_bytes("i16", "-2"), Ok(ParamBytes::Int([0xFE, 0xFF, 0, 0])));
    assert_eq!(param_value_bytes("u32", "16909060"), Ok(ParamBytes::Int([4, 3, 2, 1])));
    assert_eq!(param_value_bytes("i32", "-1"), Ok(ParamBytes::Int([0xFF; 4])));
    assert_eq!(param_value_bytes("f32", "1.5"), Ok(ParamBytes::Float));
    assert_eq!(param_value_bytes("float", "x"), Ok(ParamBytes::Float));
    assert_eq!(
        param_value_bytes("u8", "300"),
        Err("invalid --param-value u8: number too large to fit in target type".to_string())
    );
    assert_eq!(
        param_value_bytes("i16", ""),
        Err("invalid --param-value i16: cannot parse integer from empty string".to_string())
    );
    assert_eq!(
        param_value_bytes("u64", "1"),
        Err("invalid --param-type u64, expected f32|u8|i8|u16|i16|u32|i32".to_string())
    );
}
