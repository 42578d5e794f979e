use mayara::state::{generate_state_requests, ControlValueState, PowerState, RadarState};
use mayara::furuno::ControlValue;

#[test]
fn test_update_from_status_response() {
    let mut state = RadarState::new();

    assert!(state.update_from_response("$N69,2,0,0,60,300,0"));
    assert_eq!(state.power, PowerState::Transmit);

    assert!(state.update_from_response("$N69,1,0,0,60,300,0"));
    assert_eq!(state.power, PowerState::Standby);
}

#[test]
fn test_update_from_gain_response() {
    let mut state = RadarState::new();

    assert!(state.update_from_response("$N63,0,75,0,80,0"));
    assert_eq!(state.gain.mode, "manual");
    assert_eq!(state.gain.value, 75);

    assert!(state.update_from_response("$N63,1,50,0,80,0"));
    assert_eq!(state.gain.mode, "auto");
    assert_eq!(state.gain.value, 50);
}

#[test]
fn test_update_from_range_response() {
    let mut state = RadarState::new();

    assert!(state.update_from_response("$N62,5,0,0"));
    assert_eq!(state.range, 2778);

    assert!(state.update_from_response("$N62,4,0,0"));
    assert_eq!(state.range, 1852);
}

#[test]
fn test_generate_state_requests() {
    let requests = generate_state_requests();

    assert_eq!(requests.len(), 5);
    assert!(requests.contains(&"$R69\r\n".to_string()));
    assert!(requests.contains(&"$R62\r\n".to_string()));
    assert!(requests.contains(&"$R63\r\n".to_string()));
    assert!(requests.contains(&"$R64\r\n".to_string()));
    assert!(requests.contains(&"$R65\r\n".to_string()));
}

#[test]
fn status_scenario_sets_transmit() {
    let mut state = RadarState::new();
    assert_eq!(state.power, PowerState::Off);
    assert!(state.update_from_response("$N69,2,0,0,60,300,0"));
    assert_eq!(state.power, PowerState::Transmit);
}

#[test]
fn out_of_range_values_are_dropped() {
    let mut state = RadarState::new();
    assert!(!state.update_from_response("$N63,0,101,0,80,0"));
    assert!(!state.update_from_response("$N64,0,-1,50,0,0,0"));
    assert_eq!(state.gain.value, 50);
    assert_eq!(state.sea.value, 50);
    assert_eq!(state.gain.mode, "auto");
    assert!(state.update_from_response("$N65,0,100,0,0,0,0"));
    assert_eq!(state.rain.value, 100);
    assert_eq!(state.rain.mode, "manual");
}

#[test]
fn unknown_frames_leave_state() {
    let mut state = RadarState::new();
    assert!(state.update_from_response("$N62,7,0,0"));
    assert!(!state.update_from_response("$N62,16,0,0"));
    assert_eq!(state.range, 5556);
    assert!(!state.update_from_response("$N99,1,2"));
    assert!(!state.update_from_response("garbage"));
    assert!(!state.update_from_response(""));
    assert_eq!(state.range, 5556);
    assert_eq!(state.timestamp, None);
}

#[test]
fn control_value_state_conversion() {
    let s = ControlValueState::from(ControlValue { auto: true, value: 12 });
    assert_eq!(s.mode, "auto");
    assert_eq!(s.value, 12);
    let d = ControlValueState::default();
    assert_eq!((d.mode.as_str(), d.value), ("auto", 50));
    assert_eq!(PowerState::default(), PowerState::Off);
}
