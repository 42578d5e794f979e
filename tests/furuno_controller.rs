use std::collections::VecDeque;

use mayara::furuno_controller::{ControllerState, FurunoController};
use mayara::io::{IoError, IoProvider, TcpSocketHandle, UdpSocketHandle};
use mayara::state::PowerState;

/// A host with a scripted TCP peer.
#[derive(Default)]
struct TcpHost {
    now: u64,
    next: i32,
    connects: Vec<(String, u16)>,
    sent: Vec<Vec<u8>>,
    raw: VecDeque<Vec<u8>>,
    lines: VecDeque<String>,
    refuse_connect: bool,
}

fn no() -> IoError {
    IoError { code: -1, message: "unsupported".to_string() }
}

impl IoProvider for TcpHost {
    fn udp_create(&mut self) -> Result<UdpSocketHandle, IoError> {
        Err(no())
    }
    fn udp_bind(&mut self, _s: &UdpSocketHandle, _p: u16) -> Result<(), IoError> {
        Err(no())
    }
    fn udp_set_broadcast(&mut self, _s: &UdpSocketHandle, _e: bool) -> Result<(), IoError> {
        Err(no())
    }
    fn udp_join_multicast(&mut self, _s: &UdpSocketHandle, _g: &str, _i: &str) -> Result<(), IoError> {
        Err(no())
    }
    fn udp_send_to(&mut self, _s: &UdpSocketHandle, _d: &[u8], _a: &str, _p: u16) -> Result<usize, IoError> {
        Err(no())
    }
    fn udp_recv_from(&mut self, _s: &UdpSocketHandle, _b: &mut [u8]) -> Option<(usize, String, u16)> {
        None
    }
    fn udp_close(&mut self, _s: UdpSocketHandle) {}
    fn tcp_create(&mut self) -> Result<TcpSocketHandle, IoError> {
        self.next += 1;
        Ok(TcpSocketHandle(self.next))
    }
    fn tcp_connect(&mut self, _s: &TcpSocketHandle, addr: &str, port: u16) -> Result<(), IoError> {
        if self.refuse_connect {
            return Err(no());
        }
        self.connects.push((addr.to_string(), port));
        Ok(())
    }
    fn tcp_is_connected(&self, _s: &TcpSocketHandle) -> bool {
        true
    }
    fn tcp_send(&mut self, _s: &TcpSocketHandle, data: &[u8]) -> Result<usize, IoError> {
        self.sent.push(data.to_vec());
        Ok(data.len())
    }
    fn tcp_recv_line(&mut self, _s: &TcpSocketHandle, buf: &mut [u8]) -> Option<usize> {
        let line = self.lines.pop_front()?;
        let n = line.len().min(buf.len());
        buf[..n].copy_from_slice(&line.as_bytes()[..n]);
        Some(n)
    }
    fn tcp_recv_raw(&mut self, _s: &TcpSocketHandle, buf: &mut [u8]) -> Option<usize> {
        let data = self.raw.pop_front()?;
        let n = data.len().min(buf.len());
        buf[..n].copy_from_slice(&data[..n]);
        Some(n)
    }
    fn tcp_close(&mut self, _s: TcpSocketHandle) {}
    fn current_time_ms(&self) -> u64 {
        self.now
    }
    fn debug(&self, _m: &str) {}
}

fn text(b: &[u8]) -> String {
    String::from_utf8(b.to_vec()).unwrap()
}

#[test]
fn furuno_login_and_session() {
    let mut io = TcpHost::default();
    let mut c = FurunoController::new("172.31.3.212");
    assert!(c.poll(&mut io));
    assert_eq!(c.state(), ControllerState::LoggingIn);
    assert_eq!(io.connects, vec![("172.31.3.212".to_string(), 10000)]);
    assert_eq!(io.sent[0].len(), 56);
    // The reply arrives in two pieces.
    io.raw.push_back(vec![0x09, 0x01, 0x00, 0x0c, 0x01]);
    assert!(c.poll(&mut io));
    assert_eq!(c.state(), ControllerState::LoggingIn);
    io.raw.push_back(vec![0x00, 0x00, 0x00, 0x00, 0x01, 0x00, 0x00]);
    assert!(c.poll(&mut io));
    assert_eq!(c.state(), ControllerState::Connected);
    assert_eq!(c.session_port(), 10001);
    assert_eq!(io.connects[1], ("172.31.3.212".to_string(), 10001));
    // The next poll sends the state requests and applies response lines.
    io.lines.push_back("$N69,2,0,0,60,300,0".to_string());
    io.lines.push_back("$N62,5,0,0".to_string());
    c.set_gain(40, false).unwrap();
    assert!(c.poll(&mut io));
    let sent: Vec<String> = io.sent[1..].iter().map(|b| text(b)).collect();
    assert_eq!(sent, vec!["$R69\r\n", "$R62\r\n", "$R63\r\n", "$R64\r\n", "$R65\r\n", "$S63,0,40,0,80,0\r\n"]);
    assert_eq!(c.radar_state().power, PowerState::Transmit);
    assert_eq!(c.radar_state().range, 2778);
    // Keep-alive after 5 s.
    let before = io.sent.len();
    io.now = 5000;
    c.poll(&mut io);
    assert_eq!(text(&io.sent[before]), "$RE3\r\n");
    c.shutdown(&mut io);
    assert_eq!(c.state(), ControllerState::Disconnected);
}

#[test]
fn furuno_bad_login_backs_off() {
    let mut io = TcpHost::default();
    let mut c = FurunoController::new("10.0.0.1");
    c.poll(&mut io);
    io.raw.push_back(vec![0u8; 12]);
    c.poll(&mut io);
    assert_eq!(c.state(), ControllerState::Disconnected);
    // Next attempt only after the 1 s delay.
    io.now = 999;
    assert!(!c.poll(&mut io));
    io.now = 1000;
    io.refuse_connect = true;
    assert!(c.poll(&mut io));
    assert_eq!(c.state(), ControllerState::Disconnected);
    // The delay doubled to 2 s.
    io.now = 2999;
    assert!(!c.poll(&mut io));
    io.now = 3000;
    assert!(c.poll(&mut io));
}

#[test]
fn furuno_controls_are_validated() {
    let mut c = FurunoController::new("10.0.0.1");
    assert!(c.set_range(1852).is_ok());
    assert!(c.set_range(1853).is_err());
    assert!(c.set_gain(101, true).is_err());
    assert!(c.set_antenna_height(-1).is_err());
    assert!(c.set_main_bang_suppression(50).is_ok());
    assert!(c.set_bearing_alignment(1801).is_err());
    assert!(c.set_blind_sector(true, 350, 10, false, 0, 0).is_ok());
    assert!(c.set_blind_sector(true, 360, 10, false, 0, 0).is_err());
    c.set_power(true);
    let mut io = TcpHost::default();
    c.poll(&mut io);
    io.raw.push_back(vec![0x09, 0x01, 0x00, 0x0c, 0x01, 0x00, 0x00, 0x00, 0x00, 0x02, 0x00, 0x00]);
    c.poll(&mut io);
    c.poll(&mut io);
    let sent: Vec<String> = io.sent[1..].iter().map(|b| text(b)).collect();
    assert!(sent.contains(&"$S62,4,0,0\r\n".to_string()));
    assert!(sent.contains(&"$S83,127,0\r\n".to_string()));
    assert!(sent.contains(&"$S77,0,350,20,0,0\r\n".to_string()));
    assert!(sent.contains(&"$S69,2,0,0,60,300,0\r\n".to_string()));
}
