use thermal_v2_lib::usb_control::{
    control_windex, control_wvalue, get_request_type, is_purethermal, set_request_type, PT_PID, PT_VID,
    REQUEST_DIR_IN, REQUEST_DIR_OUT, REQUEST_RECIPIENT_INTERFACE, REQUEST_TYPE_CLASS, UVC_GET_CUR,
    UVC_SET_CUR, UVC_VC_INTERFACE,
};

#[test]
fn get_request_type_is_correct() {
    // GET_CUR bmRequestType: 0xA1 = device-to-host | class | interface
    assert_eq!(REQUEST_DIR_IN | REQUEST_TYPE_CLASS | REQUEST_RECIPIENT_INTERFACE, 0xA1);
    assert_eq!(get_request_type(), 0xA1);
}

#[test]
fn set_request_type_is_correct() {
    // SET_CUR bmRequestType: 0x21 = host-to-device | class | interface
    assert_eq!(REQUEST_DIR_OUT | REQUEST_TYPE_CLASS | REQUEST_RECIPIENT_INTERFACE, 0x21);
    assert_eq!(set_request_type(), 0x21);
}

#[test]
fn windex_encoding() {
    // wIndex = unit_id << 8 | interface_number
    let unit_id: u8 = 3; // AGC extension unit
    let windex = control_windex(unit_id);
    assert_eq!(windex, 0x0300);
}

#[test]
fn wvalue_encoding() {
    // wValue = control_id << 8
    let control_id: u8 = 1;
    let wvalue = control_wvalue(control_id);
    assert_eq!(wvalue, 0x0100);
}

#[test]
fn windex_with_different_units() {
    let test_cases: &[(u8, u16)] = &[
        (3, 0x0300), // AGC
        (4, 0x0400), // OEM
        (5, 0x0500), // RAD
        (6, 0x0600), // SYS
        (7, 0x0700), // VID
    ];
    for &(unit_id, expected) in test_cases {
        let windex = control_windex(unit_id);
        assert_eq!(windex, expected, "unit_id={unit_id}");
    }
}

#[test]
fn wvalue_with_different_controls() {
    for control_id in 1u8..=20 {
        let wvalue = control_wvalue(control_id);
        assert_eq!(wvalue, (control_id as u16) << 8);
        // High byte is the control_id, low byte is always 0
        assert_eq!((wvalue >> 8) as u8, control_id);
        assert_eq!((wvalue & 0xFF) as u8, 0);
    }
}

#[test]
fn constants_are_correct() {
    assert_eq!(PT_VID, 0x1e4e);
    assert_eq!(PT_PID, 0x0100);
    assert_eq!(UVC_SET_CUR, 0x01);
    assert_eq!(UVC_GET_CUR, 0x81);
    assert_eq!(UVC_VC_INTERFACE, 0);
}

#[test]
fn recognises_purethermal() {
    assert!(is_purethermal(0x1e4e, 0x0100));
    assert!(!is_purethermal(0x1e4e, 0x0101));
    assert!(!is_purethermal(0x046d, 0x0100));
}
