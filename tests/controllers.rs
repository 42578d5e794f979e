use std::collections::VecDeque;

use mayara::furuno_command::{
    migrate_antenna_height, model_name_to_radar_model, Command, CommandError as FurunoError,
    ControlType, RadarModel,
};
use mayara::io::{IoError, IoProvider, TcpSocketHandle, UdpSocketHandle};
use mayara::locator::{sanitize_string, Brand, Decoded, LocatorSocket, RadarDiscovery, RadarLocator};
use mayara::navico::{
    classify_locator_report, create_br24_locator, create_locator, process_report, report_request_frames,
    LocatorReport, Model, ReportKind,
};
use mayara::navico_command::{mod_deci_degrees, set_control, CommandError as NavicoError};
use mayara::navico_controller::{NavicoController, NavicoControllerState};
use mayara::raymarine::{RaymarineControl, RaymarineController, RaymarineControllerState, RaymarineVariant};
use mayara::provider::{furuno_set_control, ControlRequest, Provider, RadarController};
use mayara::capabilities::ControlError;
use mayara::furuno_controller::FurunoController;
use mayara::navico_report::{report_08_updates, DopplerMode, Report08, ReportControl, ReportError, ReportUpdate};
use mayara::raymarine_command::{
    on_off_command, one_byte_command, quantum_set_control, rd_set_control, standard_command, two_byte_command,
    CommandError as RaymarineError,
};

/// An in-memory host: queued datagrams per socket, and a log of sends.
#[derive(Default)]
struct MockIo {
    next: i32,
    inbox: Vec<(i32, VecDeque<(Vec<u8>, String)>)>,
    sent: Vec<(i32, Vec<u8>, String, u16)>,
    joined: Vec<(i32, String)>,
    fail_join: bool,
}

impl MockIo {
    fn queue(&mut self, socket: i32, data: &[u8], from: &str) {
        if let Some((_, q)) = self.inbox.iter_mut().find(|(s, _)| *s == socket) {
            q.push_back((data.to_vec(), from.to_string()));
        } else {
            let mut q = VecDeque::new();
            q.push_back((data.to_vec(), from.to_string()));
            self.inbox.push((socket, q));
        }
    }
}

impl IoProvider for MockIo {
    fn udp_create(&mut self) -> Result<UdpSocketHandle, IoError> {
        self.next += 1;
        Ok(UdpSocketHandle(self.next))
    }
    fn udp_bind(&mut self, _socket: &UdpSocketHandle, _port: u16) -> Result<(), IoError> {
        Ok(())
    }
    fn udp_set_broadcast(&mut self, _socket: &UdpSocketHandle, _enabled: bool) -> Result<(), IoError> {
        Ok(())
    }
    fn udp_join_multicast(&mut self, socket: &UdpSocketHandle, group: &str, _interface: &str) -> Result<(), IoError> {
        if self.fail_join {
            return Err(IoError { code: -1, message: "join".to_string() });
        }
        self.joined.push((socket.0, group.to_string()));
        Ok(())
    }
    fn udp_send_to(&mut self, socket: &UdpSocketHandle, data: &[u8], addr: &str, port: u16) -> Result<usize, IoError> {
        self.sent.push((socket.0, data.to_vec(), addr.to_string(), port));
        Ok(data.len())
    }
    fn udp_recv_from(&mut self, socket: &UdpSocketHandle, buf: &mut [u8]) -> Option<(usize, String, u16)> {
        let q = &mut self.inbox.iter_mut().find(|(s, _)| *s == socket.0)?.1;
        let (data, from) = q.pop_front()?;
        buf[..data.len()].copy_from_slice(&data);
        Some((data.len(), from, 1234))
    }
    fn udp_close(&mut self, _socket: UdpSocketHandle) {}
    fn tcp_create(&mut self) -> Result<TcpSocketHandle, IoError> {
        Err(IoError { code: -1, message: "no tcp".to_string() })
    }
    fn tcp_connect(&mut self, _socket: &TcpSocketHandle, _addr: &str, _port: u16) -> Result<(), IoError> {
        Err(IoError { code: -1, message: "no tcp".to_string() })
    }
    fn tcp_is_connected(&self, _socket: &TcpSocketHandle) -> bool {
        false
    }
    fn tcp_send(&mut self, _socket: &TcpSocketHandle, _data: &[u8]) -> Result<usize, IoError> {
        Err(IoError { code: -1, message: "no tcp".to_string() })
    }
    fn tcp_recv_line(&mut self, _socket: &TcpSocketHandle, _buf: &mut [u8]) -> Option<usize> {
        None
    }
    fn tcp_recv_raw(&mut self, _socket: &TcpSocketHandle, _buf: &mut [u8]) -> Option<usize> {
        None
    }
    fn tcp_close(&mut self, _socket: TcpSocketHandle) {}
    fn current_time_ms(&self) -> u64 {
        0
    }
    fn debug(&self, _msg: &str) {}
}

fn raymarine(variant: RaymarineVariant) -> RaymarineController {
    RaymarineController::new("ray1", "10.0.0.5", 5801, "232.1.1.1", 5802, variant, false)
}

#[test]
fn raymarine_poll_state_machine() {
    let mut io = MockIo::default();
    let mut c = raymarine(RaymarineVariant::Quantum);
    assert_eq!(c.state(), RaymarineControllerState::Disconnected);
    assert!(c.poll(&mut io));
    assert_eq!(c.state(), RaymarineControllerState::Listening);
    assert!(!c.is_connected());
    // Nothing received: stays listening.
    assert!(!c.poll(&mut io));
    assert_eq!(c.state(), RaymarineControllerState::Listening);
    // The report socket is the second one created.
    io.queue(2, &[0x01, 0x00, 0x28, 0x00, 0x05], "10.0.0.5");
    assert!(c.poll(&mut io));
    assert!(c.is_connected());
    c.shutdown(&mut io);
    assert_eq!(c.state(), RaymarineControllerState::Disconnected);
}

#[test]
fn raymarine_join_failure_stays_disconnected() {
    let mut io = MockIo { fail_join: true, ..MockIo::default() };
    let mut c = raymarine(RaymarineVariant::RD);
    assert!(c.poll(&mut io));
    assert_eq!(c.state(), RaymarineControllerState::Disconnected);
    assert_eq!(c.variant(), RaymarineVariant::RD);
    assert!(!c.has_doppler());
}

#[test]
fn raymarine_frames() {
    let q = raymarine(RaymarineVariant::Quantum);
    assert_eq!(q.control_frames(RaymarineControl::Power { transmit: true }), vec![vec![0x00, 0x01, 0x28, 0x00, 0x01, 0x00, 0x00, 0x00]]);
    assert_eq!(q.control_frames(RaymarineControl::Gain { value: 40, auto: false }), vec![vec![0x06, 0x01, 0x28, 0x00, 0x00, 40, 0x00, 0x00]]);
    assert_eq!(q.control_frames(RaymarineControl::BearingAlignment { tenths: -10 }), vec![vec![0x0B, 0x01, 0x28, 0x00, 0xF6, 0xFF, 0x00, 0x00]]);
    assert!(q.control_frames(RaymarineControl::Ftc { value: 1, enabled: true }).is_empty());
    let rd = raymarine(RaymarineVariant::RD);
    let gain = rd.control_frames(RaymarineControl::Gain { value: 77, auto: false });
    assert_eq!(gain.len(), 2);
    assert_eq!(&gain[0][..4], &[0x01, 0x83, 0x01, 0x00]);
    assert_eq!(gain[0][20], 0);
    assert_eq!(gain[1][20], 77);
    assert_eq!(rd.control_frames(RaymarineControl::Gain { value: 77, auto: true }).len(), 1);
    assert!(rd.control_frames(RaymarineControl::Mode { mode: 1 }).is_empty());
    assert_eq!(rd.control_frames(RaymarineControl::Power { transmit: true }), vec![vec![0x01, 0x80, 0x01, 0x00, 0x01, 0x00, 0x00, 0x00]]);
    assert_eq!(rd.control_frames(RaymarineControl::Range { index: 3 }), vec![vec![0x01, 0x81, 0x01, 0x00, 0x01, 0x00, 0x00, 0x00, 3, 0x00, 0x00, 0x00]]);
}

#[test]
fn raymarine_set_sends_frames() {
    let mut io = MockIo::default();
    let mut c = raymarine(RaymarineVariant::Quantum);
    c.poll(&mut io);
    c.set_rain(&mut io, 9, true);
    assert_eq!(io.sent.len(), 1);
    assert_eq!(io.sent[0].1, vec![0x08, 0x01, 0x28, 0x00, 0x01, 9, 0x00, 0x00]);
    assert_eq!(io.sent[0].2, "10.0.0.5");
    assert_eq!(io.sent[0].3, 5801);
}

#[test]
fn raymarine_server_command_helpers() {
    let mut cmd = Vec::new();
    one_byte_command(&mut cmd, &[0x01, 0x03], 7);
    assert_eq!(cmd, vec![0x01, 0x03, 0x28, 0x00, 0x00, 7, 0x00, 0x00]);
    let mut cmd = Vec::new();
    two_byte_command(&mut cmd, &[0x01, 0x04], 0x1234);
    assert_eq!(cmd, vec![0x01, 0x04, 0x28, 0x00, 0x34, 0x12, 0x00, 0x00]);
    let mut cmd = Vec::new();
    standard_command(&mut cmd, &[0x01, 0x83], 9);
    assert_eq!(cmd.len(), 24);
    assert_eq!(cmd[20], 9);
    let mut cmd = Vec::new();
    on_off_command(&mut cmd, &[0x01, 0x83], 1);
    assert_eq!(cmd.len(), 24);
    assert_eq!(cmd[16], 1);
}

#[test]
fn raymarine_server_set_control() {
    let ranges = [231, 463, 926, 1852];
    let frames = quantum_set_control("gain", 500, false, false, &ranges).unwrap();
    assert_eq!(frames, vec![
        vec![0x01, 0x03, 0x28, 0x00, 0x00, 0x00, 0x00, 0x00],
        vec![0x02, 0x83, 0x28, 0x00, 0x00, 127, 0x00, 0x00],
    ]);
    let frames = quantum_set_control("range", 9000, false, false, &ranges).unwrap();
    assert_eq!(frames[0][5], 2);
    let frames = quantum_set_control("range", 20, false, false, &ranges).unwrap();
    assert_eq!(frames[0][5], 2);
    assert_eq!(
        quantum_set_control("mainBangSuppression", 10, false, false, &ranges),
        Err(RaymarineError::CannotSetControlType("mainBangSuppression".to_string()))
    );
    let frames = rd_set_control("ftc", 1000, false, &ranges).unwrap();
    assert_eq!(frames.len(), 2);
    assert_eq!(frames[1][20], 255);
    let frames = rd_set_control("bearingAlignment", -10, false, &ranges).unwrap();
    assert_eq!(frames[0], vec![0x07, 0x82, 0x01, 0x00, 0xF6, 0xFF, 0xFF, 0xFF]);
    assert!(rd_set_control("colorGain", 10, false, &ranges).is_err());
}

#[test]
fn navico_model_names() {
    assert_eq!(Model::new("HALO"), Model::HALO);
    assert_eq!(Model::new("3G"), Model::Gen3);
    assert_eq!(Model::new("halo"), Model::Unknown);
    assert_eq!(Model::BR24.to_string(), "BR24");
    assert_eq!(Model::Unknown.to_string(), "");
}

#[test]
fn navico_locators_and_reports() {
    let l = create_locator(false);
    assert_eq!((l.group.as_str(), l.port), ("236.6.7.5", 6878));
    assert_eq!(l.request_packets, vec![vec![0x01, 0xB1]]);
    assert!(create_locator(true).request_packets.is_empty());
    let b = create_br24_locator();
    assert_eq!((b.group.as_str(), b.port), ("236.6.7.4", 6768));
    assert_eq!(classify_locator_report(&[0x01, 0xB1]), LocatorReport::AddressRequest);
    assert_eq!(classify_locator_report(&[0x01, 0xB2, 0x00]), LocatorReport::Beacon);
    assert_eq!(classify_locator_report(&[0x01]), LocatorReport::Ignored);
    assert_eq!(process_report(&[0x01, 0xC4, 0x00], Model::Unknown), ReportKind::Status);
    assert_eq!(process_report(&[0x02, 0xC4], Model::Unknown), ReportKind::Skipped);
    assert_eq!(process_report(&[0x02, 0xC4], Model::HALO), ReportKind::Settings);
    let mut blanking = vec![0u8; 68];
    blanking[0] = 0x06;
    blanking[1] = 0xC4;
    assert_eq!(process_report(&blanking, Model::HALO), ReportKind::Blanking68);
    assert_eq!(process_report(&[0x06, 0xC4, 0x00], Model::Gen4), ReportKind::Blanking74);
    assert_eq!(process_report(&[0x11, 0xC6, 0x00], Model::Gen4), ReportKind::Acknowledge);
    assert_eq!(process_report(&[0x11, 0xC6, 0x01], Model::Gen4), ReportKind::BadAcknowledge);
    assert_eq!(process_report(&[0x09, 0xC4], Model::Gen4), ReportKind::Unknown(0x09));
    assert_eq!(process_report(&[0x09], Model::Gen4), ReportKind::TooShort);
    assert_eq!(report_request_frames(), vec![vec![0x04, 0xC2], vec![0x01, 0xC2], vec![0xA0, 0xC1]]);
}

#[test]
fn navico_set_control_frames() {
    assert_eq!(set_control(Model::HALO, "power", 20, false, false, None).unwrap(), vec![vec![0x00, 0xC1, 0x01], vec![0x01, 0xC1, 0x01]]);
    assert_eq!(set_control(Model::HALO, "power", 10, false, false, None).unwrap()[1], vec![0x01, 0xC1, 0x00]);
    assert_eq!(set_control(Model::Gen3, "range", 18520, false, false, None).unwrap(), vec![vec![0x03, 0xC1, 0x58, 0x48, 0x00, 0x00]]);
    assert_eq!(set_control(Model::Gen3, "gain", 1000, true, false, None).unwrap(), vec![vec![0x06, 0xC1, 0, 0, 0, 0, 1, 0, 0, 0, 255]]);
    assert_eq!(set_control(Model::Gen3, "sea", 500, false, false, None).unwrap(), vec![vec![0x06, 0xC1, 0x02, 0, 0, 0, 0, 0, 0, 0, 127]]);
    assert_eq!(set_control(Model::HALO, "sea", 500, false, false, None).unwrap()[1], vec![0x11, 0xC1, 0x00, 50, 50, 0x02]);
    assert_eq!(set_control(Model::HALO, "sea", -500, true, false, None).unwrap()[1], vec![0x11, 0xC1, 0x01, 0x00, 0xCE, 0x04]);
    assert_eq!(set_control(Model::HALO, "targetExpansion", 10, false, false, None).unwrap(), vec![vec![0x12, 0xC1, 1]]);
    assert_eq!(set_control(Model::Gen4, "targetExpansion", 10, false, false, None).unwrap(), vec![vec![0x09, 0xC1, 1]]);
    assert_eq!(set_control(Model::HALO, "bearingAlignment", -100, false, false, None).unwrap(), vec![vec![0x05, 0xC1, 0xAC, 0x0D]]);
    let sector = set_control(Model::HALO, "noTransmitEnd2", 900, false, true, Some(-900)).unwrap();
    assert_eq!(sector, vec![vec![0x0D, 0xC1, 1, 0, 0, 0, 1], vec![0xC0, 0xC1, 1, 0, 0, 0, 1, 0x8C, 0x0A, 0x84, 0x03]]);
    assert_eq!(set_control(Model::HALO, "dopplerSpeed", 20, false, false, None).unwrap(), vec![vec![0x24, 0xC1, 32, 0]]);
    assert_eq!(
        set_control(Model::HALO, "dopplerSpeed", 50000, false, false, None),
        Err(NavicoError::ValueOutOfRange("dopplerSpeed".to_string()))
    );
    assert_eq!(
        set_control(Model::HALO, "userName", 0, false, false, None),
        Err(NavicoError::CannotSetControlType("userName".to_string()))
    );
    assert_eq!(mod_deci_degrees(-100), 3500);
    assert_eq!(mod_deci_degrees(3600), 0);
}

#[test]
fn furuno_session_commands() {
    let cmd = Command::new(vec![116, 231, 463, 926, 1852]);
    let frames = cmd.set_control(ControlType::Gain, 60, false, [0; 4]).unwrap();
    assert_eq!(frames, vec!["$S63,0,60,0,80,0\r\n".to_string(), "$R66\r\n".to_string()]);
    assert_eq!(cmd.set_control(ControlType::Status, 2, false, [0; 4]).unwrap()[0], "$S69,2,0,0,60,300,0\r\n");
    assert_eq!(cmd.set_control(ControlType::Range, 1852, false, [0; 4]).unwrap()[0], "$S62,4,0,0\r\n");
    assert_eq!(cmd.set_control(ControlType::Range, 116, false, [0; 4]).unwrap()[0], "$S62,21,0,0\r\n");
    assert_eq!(cmd.set_control(ControlType::Range, 1000, false, [0; 4]), Err(FurunoError::InvalidValue(ControlType::Range)));
    assert_eq!(cmd.set_control(ControlType::Range, 2778, false, [0; 4]), Err(FurunoError::InvalidValue(ControlType::Range)));
    assert_eq!(cmd.set_control(ControlType::AntennaHeight, 15, false, [0; 4]).unwrap()[0], "$S84,0,15,0\r\n");
    assert_eq!(cmd.set_control(ControlType::NoTransmitEnd1, 45, false, [10, 20, 30, 40]).unwrap()[0], "$S77,10,45,30,40\r\n");
    assert_eq!(cmd.set_control(ControlType::ScanSpeed, 2, false, [0; 4]).unwrap()[0], "$S89,2,0\r\n");
    assert_eq!(cmd.set_control(ControlType::Other, 0, false, [0; 4]), Err(FurunoError::CannotSetControlType(ControlType::Other)));
    let init = cmd.init();
    assert_eq!(init.len(), 14);
    assert_eq!(init[0], "$R60,0\r\n");
    assert_eq!(init[1], "$R96,,,,,,,\n");
    assert_eq!(cmd.send_report_requests(), "$RE3\r\n");
}

#[test]
fn furuno_models() {
    assert_eq!(model_name_to_radar_model("DRS4D-NXT"), RadarModel::DRS4DNXT);
    assert_eq!(model_name_to_radar_model("XYZ"), RadarModel::Unknown);
    assert_eq!(RadarModel::FAR3000.to_str(), "FAR-3000");
    assert_eq!(migrate_antenna_height(1), 5);
    assert_eq!(migrate_antenna_height(250), 100);
    assert_eq!(migrate_antenna_height(-3), 0);
    assert_eq!(migrate_antenna_height(42), 42);
}

fn beacon(name: &str, address: &str) -> RadarDiscovery {
    RadarDiscovery {
        brand: Brand::Navico,
        model: None,
        name: name.to_string(),
        serial_number: None,
        address: address.to_string(),
        spokes_per_revolution: 2048,
        max_spoke_len: 1024,
        command_port: 6680,
        data_port: 6678,
    }
}

#[test]
fn locator_discovers_once() {
    let mut io = MockIo::default();
    let mut loc = RadarLocator::new();
    loc.furuno_announce_packets = vec![vec![1, 2], vec![3]];
    loc.start(&mut io);
    // First Furuno announce at start.
    assert_eq!(io.sent.len(), 2);
    assert_eq!(io.sent[0].2, "172.31.255.255");
    assert_eq!(io.sent[0].3, 10010);
    // Sockets: 1 Furuno, 2 BR24, 3 Gen3, 4 Raymarine, 5 Garmin.
    io.queue(3, &[0x01, 0xB2, 7], "10.0.0.9");
    io.queue(3, &[0x01, 0xB2, 7], "10.0.0.9");
    io.queue(1, &[0x96], "10.0.0.9:10010");
    let decode = |kind: LocatorSocket, data: &[u8], addr: &str| -> Decoded {
        match kind {
            LocatorSocket::NavicoGen3 if data[0] == 0x01 => Decoded::Beacon(beacon("HALO-A", &format!("{}:6878", addr))),
            LocatorSocket::Furuno => Decoded::ModelReport { model: Some("HALO24".to_string()), serial: None },
            _ => Decoded::Nothing,
        }
    };
    loc.current_time_ms = 500;
    let new = loc.poll(&mut io, &decode);
    assert_eq!(new.len(), 1);
    assert_eq!(new[0].name, "HALO-A");
    assert_eq!(loc.radars.len(), 1);
    assert_eq!(loc.radars[0].id, "Navico-HALO-A");
    assert_eq!(loc.radars[0].last_seen_ms, 500);
    io.queue(3, &[0x01, 0xB2, 7], "10.0.0.9");
    loc.current_time_ms = 900;
    let new = loc.poll(&mut io, &decode);
    assert!(new.is_empty());
    assert_eq!(loc.radars.len(), 1);
    assert_eq!(loc.radars[0].last_seen_ms, 900);
    // The model report (received before the beacon was recorded) did not apply; a later one does.
    io.queue(1, &[0x96], "10.0.0.9:10010");
    loc.poll(&mut io, &decode);
    assert_eq!(loc.radars[0].discovery.model.as_deref(), Some("HALO24"));
    loc.shutdown(&mut io);
}

#[test]
fn names_are_sanitized() {
    assert_eq!(sanitize_string("DRS4D-NXT (1)_a"), "DRS4D-NXT1_a");
    assert_eq!(sanitize_string("é ü"), "");
    assert_eq!(Brand::Raymarine.as_str(), "Raymarine");
}

#[test]
fn navico_controller_session() {
    let mut io = MockIo::default();
    let mut c = NavicoController::new("236.6.7.10", 6680, "236.6.7.9", 6679, Model::HALO);
    assert!(c.poll(&mut io));
    assert_eq!(c.state(), NavicoControllerState::Listening);
    assert_eq!(io.joined, vec![(2, "236.6.7.9".to_string())]);
    // Report requests go out, then the first report connects.
    io.queue(2, &[0x03, 0xC4, 0x00], "10.0.0.7");
    assert!(c.poll(&mut io));
    let requests: Vec<Vec<u8>> = io.sent.iter().map(|s| s.1.clone()).collect();
    assert_eq!(requests, vec![vec![0x04, 0xC2], vec![0x01, 0xC2], vec![0xA0, 0xC1]]);
    assert_eq!(io.sent[0].2, "236.6.7.10");
    assert_eq!(c.state(), NavicoControllerState::Connected);
    assert_eq!(c.last_report(), Some(ReportKind::Firmware));
    let before = io.sent.len();
    assert!(c.set_control(&mut io, "interferenceRejection", 20, false, false, None).is_ok());
    assert_eq!(io.sent[before].1, vec![0x08, 0xC1, 2]);
    assert!(c.set_control(&mut io, "nothing", 20, false, false, None).is_err());
    assert_eq!(io.sent.len(), before + 1);
    c.set_model(Model::Gen4);
    assert_eq!(c.model(), Model::Gen4);
    c.shutdown(&mut io);
    assert_eq!(c.state(), NavicoControllerState::Disconnected);
}

#[test]
fn locator_refreshes_known_radar() {
    let mut loc = RadarLocator::new();
    loc.current_time_ms = 10;
    assert!(loc.add_radar(&beacon("A", "10.0.0.1:1")));
    loc.current_time_ms = 20;
    assert!(!loc.add_radar(&beacon("A", "10.0.0.9:2")));
    assert_eq!(loc.radars.len(), 1);
    assert_eq!(loc.radars[0].last_seen_ms, 20);
    assert_eq!(loc.radars[0].discovery.address, "10.0.0.1:1");
}

fn discovery(brand: Brand, name: &str, model: Option<&str>, address: &str) -> RadarDiscovery {
    RadarDiscovery {
        brand,
        model: model.map(|m| m.to_string()),
        name: name.to_string(),
        serial_number: None,
        address: address.to_string(),
        spokes_per_revolution: 2048,
        max_spoke_len: 1024,
        command_port: 5801,
        data_port: 5802,
    }
}

#[test]
fn provider_creates_controllers_by_model() {
    let mut io = MockIo::default();
    let mut loc = RadarLocator::new();
    loc.start(&mut io);
    let mut provider = Provider::new(loc);
    io.queue(3, &[1], "10.0.0.5");
    io.queue(3, &[2], "10.0.0.6");
    io.queue(4, &[3], "10.0.0.7");
    io.queue(5, &[4], "10.0.0.8");
    io.queue(3, &[5], "10.0.0.9");
    let decode = |_kind: LocatorSocket, data: &[u8], addr: &str| -> Decoded {
        let a = format!("{}:1", addr);
        match data[0] {
            1 => Decoded::Beacon(discovery(Brand::Navico, "H", Some("HALO 24"), &a)),
            2 => Decoded::Beacon(discovery(Brand::Navico, "B", None, &a)),
            3 => Decoded::Beacon(discovery(Brand::Raymarine, "Q", Some("Quantum 2"), &a)),
            4 => Decoded::Beacon(discovery(Brand::Garmin, "G", None, &a)),
            _ => Decoded::Beacon(discovery(Brand::Furuno, "F", Some("DRS4D-NXT"), &a)),
        }
    };
    let new = provider.poll(&mut io, &decode);
    assert_eq!(new.len(), 5);
    let cs = provider.controllers();
    assert_eq!(cs.len(), 4);
    for e in cs.iter() {
        match (&e.id[..], &e.controller) {
            ("Navico-H", RadarController::Navico(n)) => assert_eq!(n.model(), Model::HALO),
            ("Navico-B", RadarController::Navico(n)) => assert_eq!(n.model(), Model::Gen4),
            ("Raymarine-Q", RadarController::Raymarine(r)) => {
                assert_eq!(r.variant(), RaymarineVariant::Quantum);
                assert!(r.has_doppler());
            }
            ("Furuno-F", RadarController::Furuno(_)) => {}
            (id, _) => panic!("unexpected controller {}", id),
        }
    }
    // A second poll keeps the controllers.
    provider.poll(&mut io, &decode);
    assert_eq!(provider.controllers().len(), 4);
}

#[test]
fn furuno_dispatch() {
    let mut c = FurunoController::new("10.0.0.1");
    assert!(furuno_set_control(&mut c, "antennaHeight", &ControlRequest::Integer(15)).is_ok());
    assert!(matches!(furuno_set_control(&mut c, "antennaHeight", &ControlRequest::Integer(101)), Err(ControlError::InvalidValue(_))));
    assert!(matches!(furuno_set_control(&mut c, "noiseReduction", &ControlRequest::Integer(1)), Err(ControlError::InvalidValue(_))));
    match furuno_set_control(&mut c, "warp", &ControlRequest::Bool(true)) {
        Err(ControlError::ControlNotFound(id)) => assert_eq!(id, "warp"),
        _ => panic!("expected ControlNotFound"),
    }
    assert!(furuno_set_control(&mut c, "bearingAlignment", &ControlRequest::Decimal { tenths: -55 }).is_ok());
    assert!(furuno_set_control(&mut c, "dopplerMode", &ControlRequest::Doppler { enabled: true, rain: true }).is_ok());
    assert!(furuno_set_control(&mut c, "noTransmitZones", &ControlRequest::Zones {
        z1_enabled: true, z1_start: 350, z1_end: 10, z2_enabled: false, z2_start: 0, z2_end: 0,
    }).is_ok());
    assert!(furuno_set_control(&mut c, "interferenceRejection", &ControlRequest::Integer(1)).is_ok());
    let mut io = MockIo::default();
    // Nothing is sent without a TCP session; the frames stay queued for it.
    c.poll(&mut io);
    assert!(io.sent.is_empty());
}

#[test]
fn report_08_by_model() {
    let r = Report08 {
        sea_state: 2, local_interference_rejection: 1, scan_speed: 1, sidelobe_suppression_auto: true,
        sidelobe_suppression: 40, noise_rejection: 3, target_separation: 2, sea_clutter: 50, auto_sea_clutter: -3,
        doppler_state: Some(1), doppler_speed: Some(16),
    };
    let halo = report_08_updates(&r, Model::HALO).unwrap();
    assert_eq!(halo[0], ReportUpdate::Doppler(DopplerMode::Both));
    assert_eq!(halo.len(), 10);
    assert_eq!(halo[4], ReportUpdate::SetWithAutoValue { control: ReportControl::Sea, value: 50, auto_value: -3 });
    let gen3 = report_08_updates(&Report08 { doppler_state: None, ..r }, Model::Gen3).unwrap();
    assert_eq!(gen3.len(), 4);
    assert!(!gen3.iter().any(|u| matches!(u, ReportUpdate::Value { control: ReportControl::TargetSeparation, .. })));
    let gen4 = report_08_updates(&Report08 { doppler_state: None, ..r }, Model::Gen4).unwrap();
    assert_eq!(gen4.last(), Some(&ReportUpdate::Value { control: ReportControl::TargetSeparation, value: 2 }));
    assert_eq!(report_08_updates(&Report08 { doppler_state: Some(7), ..r }, Model::HALO), Err(ReportError::UnknownDopplerState(7)));
}
