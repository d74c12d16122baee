use motorbridge::scan::{
    build_scan_feedback_hints, build_scan_model_hints, damiao_default_feedback_id,
    myactuator_feedback_default,
};

#[test]
fn scan_model_hints_are_unique() {
    let hints = build_scan_model_hints();
    assert!(!hints.is_empty());
    let count_4310 = hints.iter().filter(|m| m.as_str() == "4310").count();
    assert_eq!(count_4310, 1);
    assert!(hints.iter().any(|m| m == "4340P"));
}

#[test]
fn scan_feedback_hints_include_common_ids() {
    let fids = build_scan_feedback_hints(0x0017, 0x0007);
    assert!(fids.contains(&0x0011));
    assert!(fids.contains(&0x0017));
    assert_eq!(fids[0], 0x0017);
}

#[test]
fn scan_model_hints_keep_listed_order() {
    let hints = build_scan_model_hints();
    assert_eq!(hints.len(), 15);
    assert_eq!(hints[0], "4340P");
    assert_eq!(hints[14], "6248P");
}

#[test]
fn scan_feedback_hints_drop_repeats() {
    assert_eq!(build_scan_feedback_hints(0x0017, 0x0007), vec![0x0017, 0x0011]);
    assert_eq!(build_scan_feedback_hints(0x0020, 0x0001), vec![0x0011, 0x0020, 0x0017]);
    assert_eq!(build_scan_feedback_hints(0x0001, 0xFFFF), vec![0xFFFF, 0x0001, 0x0011, 0x0017]);
}

#[test]
fn default_feedback_ids() {
    assert_eq!(damiao_default_feedback_id(0x25), 0x15);
    assert_eq!(damiao_default_feedback_id(0x0F), 0x1F);
    assert_eq!(myactuator_feedback_default(1), 0x241);
    assert_eq!(myactuator_feedback_default(0xFFFF), 0xFFFF);
}
