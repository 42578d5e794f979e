use mayara::furuno::{
    format_antenna_height_command, format_auto_acquire_command, format_bird_mode_command,
    format_blind_sector_command, format_command, format_gain_command,
    format_heading_align_command, format_interference_rejection_command, format_keepalive,
    format_main_bang_command, format_noise_reduction_command, format_rain_command,
    format_range_command, format_request_gain, format_request_modules, format_request_ontime,
    format_request_picture_all, format_request_rain, format_request_range, format_request_sea,
    format_request_status, format_rezboost_command, format_scan_speed_command,
    format_sea_command, format_status_command, format_target_analyzer_command,
    format_tx_channel_command, login_message, meters_to_range_index, parse_gain_response,
    parse_login_response, parse_rain_response, parse_range_response, parse_response,
    parse_sea_response, parse_status_response, range_index_to_meters, CommandId, CommandMode,
    ControlValue,
};

#[test]
fn test_format_status_transmit() {
    let cmd = format_status_command(true);
    assert_eq!(cmd, "$S69,2,0,0,60,300,0\r\n");
}

#[test]
fn test_format_status_standby() {
    let cmd = format_status_command(false);
    assert_eq!(cmd, "$S69,1,0,0,60,300,0\r\n");
}

#[test]
fn test_format_range() {
    let cmd = format_range_command(5);
    assert_eq!(cmd, "$S62,5,0,0\r\n");
}

#[test]
fn test_format_gain_manual() {
    let cmd = format_gain_command(75, false);
    assert_eq!(cmd, "$S63,0,75,0,80,0\r\n");
}

#[test]
fn test_format_gain_auto() {
    let cmd = format_gain_command(50, true);
    assert_eq!(cmd, "$S63,1,50,0,80,0\r\n");
}

#[test]
fn test_format_keepalive() {
    let cmd = format_keepalive();
    assert_eq!(cmd, "$RE3\r\n");
}

#[test]
fn test_parse_login_response() {
    let response: [u8; 12] = [
        0x09, 0x01, 0x00, 0x0c, 0x01, 0x00, 0x00, 0x00, 0x00, 0x01, 0x00, 0x00,
    ];
    let port = parse_login_response(&response);
    assert_eq!(port, Some(10001));
}

#[test]
fn test_parse_response() {
    let (mode, cmd_id, args) = parse_response("$N69,2,0,0,60,300,0").unwrap();
    assert_eq!(mode, CommandMode::New);
    assert_eq!(cmd_id, 0x69);
    assert_eq!(args, vec![2, 0, 0, 60, 300, 0]);
}

#[test]
fn test_parse_status_response() {
    assert_eq!(parse_status_response("$N69,2,0,0,60,300,0"), Some(true));
    assert_eq!(parse_status_response("$N69,1,0,0,60,300,0"), Some(false));
    assert_eq!(parse_status_response("$N62,5,0,0"), None);
}

#[test]
fn test_format_sea_manual() {
    let cmd = format_sea_command(60, false);
    assert_eq!(cmd, "$S64,0,60,50,0,0,0\r\n");
}

#[test]
fn test_format_sea_auto() {
    let cmd = format_sea_command(50, true);
    assert_eq!(cmd, "$S64,1,50,50,0,0,0\r\n");
}

#[test]
fn test_format_rain_manual() {
    let cmd = format_rain_command(30, false);
    assert_eq!(cmd, "$S65,0,30,0,0,0,0\r\n");
}

#[test]
fn test_format_rain_auto() {
    let cmd = format_rain_command(25, true);
    assert_eq!(cmd, "$S65,1,25,0,0,0,0\r\n");
}

#[test]
fn test_format_blind_sector() {
    let cmd = format_blind_sector_command(false, 200, 100, 0, 0);
    assert_eq!(cmd, "$S77,0,200,100,0,0\r\n");

    let cmd = format_blind_sector_command(true, 200, 100, 320, 60);
    assert_eq!(cmd, "$S77,1,200,100,320,60\r\n");

    let cmd = format_blind_sector_command(false, 0, 0, 0, 0);
    assert_eq!(cmd, "$S77,0,0,0,0,0\r\n");
}

#[test]
fn test_format_scan_speed() {
    let cmd = format_scan_speed_command(0);
    assert_eq!(cmd, "$S89,0,0\r\n");

    let cmd = format_scan_speed_command(2);
    assert_eq!(cmd, "$S89,2,0\r\n");
}

#[test]
fn test_format_noise_reduction() {
    let cmd = format_noise_reduction_command(true);
    assert_eq!(cmd, "$S67,0,3,1,0\r\n");

    let cmd = format_noise_reduction_command(false);
    assert_eq!(cmd, "$S67,0,3,0,0\r\n");
}

#[test]
fn test_format_interference_rejection() {
    let cmd = format_interference_rejection_command(true);
    assert_eq!(cmd, "$S67,0,0,2,0\r\n");

    let cmd = format_interference_rejection_command(false);
    assert_eq!(cmd, "$S67,0,0,0,0\r\n");
}

#[test]
fn test_format_rezboost() {
    let cmd = format_rezboost_command(0, 0);
    assert_eq!(cmd, "$SEE,0,0\r\n");

    let cmd = format_rezboost_command(3, 1);
    assert_eq!(cmd, "$SEE,3,1\r\n");
}

#[test]
fn test_format_bird_mode() {
    let cmd = format_bird_mode_command(0, 0);
    assert_eq!(cmd, "$SED,0,0\r\n");

    let cmd = format_bird_mode_command(2, 0);
    assert_eq!(cmd, "$SED,2,0\r\n");
}

#[test]
fn test_format_target_analyzer() {
    let cmd = format_target_analyzer_command(false, 0, 0);
    assert_eq!(cmd, "$SEF,0,0,0\r\n");

    let cmd = format_target_analyzer_command(true, 0, 0);
    assert_eq!(cmd, "$SEF,1,0,0\r\n");

    let cmd = format_target_analyzer_command(true, 1, 0);
    assert_eq!(cmd, "$SEF,1,1,0\r\n");
}

#[test]
fn test_format_tx_channel() {
    let cmd = format_tx_channel_command(0);
    assert_eq!(cmd, "$SEC,0\r\n");

    let cmd = format_tx_channel_command(2);
    assert_eq!(cmd, "$SEC,2\r\n");
}

#[test]
fn test_format_auto_acquire() {
    let cmd = format_auto_acquire_command(true);
    assert_eq!(cmd, "$SF0,1\r\n");

    let cmd = format_auto_acquire_command(false);
    assert_eq!(cmd, "$SF0,0\r\n");
}

#[test]
fn test_format_main_bang() {
    let cmd = format_main_bang_command(0);
    assert_eq!(cmd, "$S83,0,0\r\n");

    let cmd = format_main_bang_command(50);
    assert_eq!(cmd, "$S83,127,0\r\n");

    let cmd = format_main_bang_command(100);
    assert_eq!(cmd, "$S83,255,0\r\n");
}

#[test]
fn test_format_heading_align() {
    let cmd = format_heading_align_command(0);
    assert_eq!(cmd, "$S81,0,0\r\n");

    let cmd = format_heading_align_command(1800);
    assert_eq!(cmd, "$S81,1800,0\r\n");
}

#[test]
fn test_format_antenna_height() {
    let cmd = format_antenna_height_command(5);
    assert_eq!(cmd, "$S84,0,5,0\r\n");

    let cmd = format_antenna_height_command(15);
    assert_eq!(cmd, "$S84,0,15,0\r\n");
}

#[test]
fn test_parse_gain_response() {
    let result = parse_gain_response("$N63,0,50,0,80,0").unwrap();
    assert!(!result.auto);
    assert_eq!(result.value, 50);

    let result = parse_gain_response("$N63,1,75,0,80,0").unwrap();
    assert!(result.auto);
    assert_eq!(result.value, 75);

    assert!(parse_gain_response("$N64,0,50,0,0,0,0").is_none());
}

#[test]
fn test_parse_sea_response() {
    let result = parse_sea_response("$N64,0,60,50,0,0,0").unwrap();
    assert!(!result.auto);
    assert_eq!(result.value, 60);

    let result = parse_sea_response("$N64,1,50,50,0,0,0").unwrap();
    assert!(result.auto);
    assert_eq!(result.value, 50);
}

#[test]
fn test_parse_rain_response() {
    let result = parse_rain_response("$N65,0,30,0,0,0,0").unwrap();
    assert!(!result.auto);
    assert_eq!(result.value, 30);

    let result = parse_rain_response("$N65,1,25,0,0,0,0").unwrap();
    assert!(result.auto);
    assert_eq!(result.value, 25);
}

#[test]
fn test_parse_range_response() {
    let result = parse_range_response("$N62,5,0,0").unwrap();
    assert_eq!(result, 5);

    let result = parse_range_response("$N62,21,0,0").unwrap();
    assert_eq!(result, 21);
}

#[test]
fn test_format_request_commands() {
    assert_eq!(format_request_status(), "$R69\r\n");
    assert_eq!(format_request_gain(), "$R63\r\n");
    assert_eq!(format_request_sea(), "$R64\r\n");
    assert_eq!(format_request_rain(), "$R65\r\n");
    assert_eq!(format_request_range(), "$R62\r\n");
}

#[test]
fn other_requests() {
    assert_eq!(format_request_picture_all(), "$R66\r\n");
    assert_eq!(format_request_modules(), "$R96\r\n");
    assert_eq!(format_request_ontime(), "$R8E,0,0\r\n");
    assert_eq!(CommandMode::SetValue.as_char(), 'S');
    assert_eq!(CommandId::AutoAcquire.as_hex(), 0xF0);
}

#[test]
fn login_reply_checks() {
    let mut reply = vec![0x09u8, 0x01, 0x00, 0x0c, 0x01, 0x00, 0x00, 0x00, 0x01, 0x02, 0x00, 0x00];
    assert_eq!(parse_login_response(&reply), Some(10000 + 0x0102));
    reply[3] = 0x0d;
    assert_eq!(parse_login_response(&reply), None);
    assert_eq!(parse_login_response(&reply[..11]), None);
    // A port beyond 65535 is rejected.
    let high = [0x09u8, 0x01, 0x00, 0x0c, 0x01, 0x00, 0x00, 0x00, 0xff, 0xff, 0x00, 0x00];
    assert_eq!(parse_login_response(&high), None);
    let msg = login_message();
    assert_eq!(msg.len(), 56);
    assert_eq!(&msg[12..21], b"COPYRIGHT");
}

#[test]
fn format_then_parse_round_trip() {
    let args = [-7, 0, 2147483647, -2147483648, 300];
    let line = format_command(CommandMode::New, CommandId::TargetAnalyzer, &args);
    assert_eq!(line, "$NEF,-7,0,2147483647,-2147483648,300\r\n");
    let (mode, id, parsed) = parse_response(&line).unwrap();
    assert_eq!(mode, CommandMode::New);
    assert_eq!(id, 0xEF);
    assert_eq!(parsed, args.to_vec());
    let (mode, id, parsed) = parse_response(&format_keepalive()).unwrap();
    assert_eq!((mode, id, parsed.len()), (CommandMode::Request, 0xE3, 0));
}

#[test]
fn gain_set_round_trip_scenario() {
    assert_eq!(format_gain_command(50, false), "$S63,0,50,0,80,0\r\n");
    assert_eq!(parse_gain_response("$N63,0,50,0,80,0"), Some(ControlValue { auto: false, value: 50 }));
}

#[test]
fn parsing_is_tolerant() {
    // Trailing comma, missing carriage return, surrounding spaces.
    assert_eq!(parse_response("  $N63,0,50,\n").unwrap().2, vec![0, 50]);
    assert_eq!(parse_response("$n63").is_none(), true);
    assert_eq!(parse_response("$N").is_none(), true);
    assert_eq!(parse_response("N69,2").is_none(), true);
    assert_eq!(parse_response("$NZZ,1").is_none(), true);
    assert_eq!(parse_response("$N1FF,1").is_none(), true);
    assert_eq!(parse_response("$N69,x,+3, 4 ,2147483648").unwrap().2, vec![3, 4]);
    assert_eq!(parse_gain_response("$N63,1"), None);
    assert_eq!(parse_status_response("$S69,2,0"), None);
}

#[test]
fn range_table_scenario() {
    assert_eq!(meters_to_range_index(1852), 4);
    assert_eq!(range_index_to_meters(21), Some(116));
    assert_eq!(range_index_to_meters(19), Some(66672));
    assert_eq!(range_index_to_meters(16), None);
}

#[test]
fn range_lookup_gives_nearest() {
    // 2000 m is nearest to 1852 m (index 4).
    assert_eq!(range_index_to_meters(meters_to_range_index(2000)), Some(1852));
    // 70000 m lies between 66672 (index 19) and 88896 (index 15).
    assert_eq!(meters_to_range_index(70000), 19);
    assert_eq!(meters_to_range_index(0), 21);
    assert_eq!(meters_to_range_index(i32::MIN), 21);
    assert_eq!(meters_to_range_index(i32::MAX), 15);
    // A tie goes to the shorter range: 173.5 is not an integer, use 347 between 231 and 463.
    assert_eq!(meters_to_range_index(347), 0);
}

#[test]
fn range_choice_grows_with_request() {
    let mut last = 0;
    for m in (0..100000).step_by(97) {
        let got = range_index_to_meters(meters_to_range_index(m)).unwrap();
        assert!(got >= last);
        last = got;
    }
}
