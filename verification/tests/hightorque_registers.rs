use motorbridge::hightorque::{parameter_info, parameter_table, RegisterType};

#[test]
fn parameter_table_has_no_duplicate_addresses() {
    let mut addrs: Vec<u8> = parameter_table().iter().map(|i| i.addr).collect();
    addrs.sort_unstable();
    let before = addrs.len();
    addrs.dedup();
    assert_eq!(addrs.len(), before, "duplicate register addresses present");
}

#[test]
fn known_registers_resolved() {
    assert_eq!(parameter_info(0x01).unwrap().name, "位置");
    assert_eq!(parameter_info(0x0F).unwrap().name, "错误代码");
    assert_eq!(parameter_info(0x45).unwrap().name, "最大扭矩(映射 0x25)");
}

#[test]
fn unknown_address_returns_none() {
    assert!(parameter_info(0x07).is_none());
    assert!(parameter_info(0x50).is_none());
}

#[test]
fn pos_vel_tqe_types_are_int16() {
    assert_eq!(parameter_info(0x01).unwrap().ty, Some(RegisterType::Int16));
    assert_eq!(parameter_info(0x02).unwrap().ty, Some(RegisterType::Int16));
    assert_eq!(parameter_info(0x03).unwrap().ty, Some(RegisterType::Int16));
}

#[test]
fn table_is_sorted_and_complete() {
    let t = parameter_table();
    assert_eq!(t.len(), 46);
    assert!(t.windows(2).all(|w| w[0].addr < w[1].addr));
    assert!(parameter_info(0x00).unwrap().writable);
    assert!(!parameter_info(0x01).unwrap().writable);
}
