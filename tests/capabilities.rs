use mayara::capabilities::{is_false, is_zero, parse_compound_control, CompoundValue, ControlError};

#[test]
fn control_error_messages() {
    assert_eq!(ControlError::RadarNotFound.to_string(), "Radar not found");
    assert_eq!(ControlError::ControlNotFound("gain".to_string()).to_string(), "Control not found: gain");
    assert_eq!(ControlError::InvalidValue("x".to_string()).to_string(), "Invalid value: x");
    assert_eq!(ControlError::ControllerNotAvailable.to_string(), "Controller not available");
    assert_eq!(ControlError::ControlDisabled("off".to_string()).to_string(), "Control disabled: off");
}

#[test]
fn serialization_skips() {
    assert!(is_zero(&0));
    assert!(!is_zero(&3));
    assert!(is_false(&false));
    assert!(!is_false(&true));
}

#[test]
fn compound_control_values() {
    let r = parse_compound_control(&CompoundValue::Number(42)).unwrap();
    assert_eq!(r, (false, Some(42)));
    assert!(matches!(parse_compound_control(&CompoundValue::Object { mode: Some("auto".to_string()), value: Some(300) }), Err(ControlError::InvalidValue(_))));
    assert!(matches!(parse_compound_control(&CompoundValue::Number(101)), Err(ControlError::InvalidValue(_))));
    let r = parse_compound_control(&CompoundValue::Object { mode: Some("auto".to_string()), value: Some(100) }).unwrap();
    assert_eq!(r, (true, Some(100)));
    let r = parse_compound_control(&CompoundValue::Object { mode: None, value: None }).unwrap();
    assert_eq!(r, (false, None));
    match parse_compound_control(&CompoundValue::Other) {
        Err(e) => assert_eq!(e.to_string(), "Invalid value: Expected number or {mode, value} object"),
        Ok(_) => panic!("expected an error"),
    }
}
