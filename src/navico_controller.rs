//! Navico controller over UDP multicast: no handshake; every 5 s the
//! controller asks for reports, and control changes are sent as the frames
//! of the command module. A dual-range radar is driven by two controllers,
//! one per logical radar.
use vstd::prelude::*;
use crate::io::{IoProvider, UdpSocketHandle};
use crate::navico::{process_report, report_request_frames, Model, ReportKind};
use crate::navico_command::{control_of_id, set_control, value_fits, CommandError};

verus! {

/// Interval between report requests.
pub const REPORT_REQUEST_INTERVAL_MS: u64 = 5000;
/// Most reports taken in one poll.
pub const MAX_REPORTS_PER_POLL: usize = 256;
/// Size of the report receive buffer.
pub const REPORT_BUFFER_LEN: usize = 2048;

/// Connection state of a Navico controller.
#[derive(Debug, Clone, Copy, PartialEq, Eq, Structural)]
pub enum NavicoControllerState {
    Disconnected,
    /// Report socket joined, no report yet.
    Listening,
    /// Reports arriving.
    Connected,
}

/// Controller of one logical Navico radar.
pub struct NavicoController {
    command_addr: String,
    command_port: u16,
    report_addr: String,
    report_port: u16,
    model: Model,
    command_socket: Option<UdpSocketHandle>,
    report_socket: Option<UdpSocketHandle>,
    state: NavicoControllerState,
    next_request_ms: u64,
    last_report: Option<ReportKind>,
}

impl NavicoController {
    pub closed spec fn wf(&self) -> bool {
        self.state != NavicoControllerState::Disconnected ==> self.report_socket is Some
    }

    pub closed spec fn state_spec(&self) -> NavicoControllerState {
        self.state
    }

    pub closed spec fn model_spec(&self) -> Model {
        self.model
    }

    pub closed spec fn last_report_spec(&self) -> Option<ReportKind> {
        self.last_report
    }

    /// A disconnected controller for the given command and report groups.
    pub fn new(command_addr: &str, command_port: u16, report_addr: &str, report_port: u16, model: Model) -> (c: NavicoController)
        ensures
            c.wf(),
            c.state_spec() == NavicoControllerState::Disconnected,
            c.model_spec() == model,
    {
        NavicoController {
            command_addr: String::from_str(command_addr),
            command_port,
            report_addr: String::from_str(report_addr),
            report_port,
            model,
            command_socket: None,
            report_socket: None,
            state: NavicoControllerState::Disconnected,
            next_request_ms: 0,
            last_report: None,
        }
    }

    /// Connection state.
    pub fn state(&self) -> (s: NavicoControllerState)
        ensures
            s == self.state_spec(),
    {
        self.state
    }

    /// The radar model the frames are built for.
    pub fn model(&self) -> (m: Model)
        ensures
            m == self.model_spec(),
    {
        self.model
    }

    /// Sets the model once it is known (from a firmware report).
    pub fn set_model(&mut self, model: Model)
        ensures
            final(self).model_spec() == model,
            final(self).state_spec() == old(self).state_spec(),
            old(self).wf() ==> final(self).wf(),
    {
        self.model = model;
    }

    /// Handler of the last report received.
    pub fn last_report(&self) -> (r: Option<ReportKind>)
        ensures
            r == self.last_report_spec(),
    {
        self.last_report
    }

    /// One step: set up sockets when disconnected; otherwise ask for reports
    /// when due and drain the report socket (the first report means
    /// connected). Returns whether anything happened.
    pub fn poll<I: IoProvider>(&mut self, io: &mut I) -> (r: bool)
        requires
            old(self).wf(),
        ensures
            final(self).wf(),
            final(self).model_spec() == old(self).model_spec(),
            old(self).state_spec() == NavicoControllerState::Disconnected ==> r
                && final(self).state_spec() != NavicoControllerState::Connected,
            old(self).state_spec() == NavicoControllerState::Connected ==> final(self).state_spec()
                == NavicoControllerState::Connected,
    {
        if self.state == NavicoControllerState::Disconnected {
            self.start_sockets(io);
            return true;
        }
        let mut activity = false;
        let now = io.current_time_ms();
        if now >= self.next_request_ms {
            let frames = report_request_frames();
            self.send_frames(io, &frames);
            self.next_request_ms = now.saturating_add(REPORT_REQUEST_INTERVAL_MS);
            activity = true;
        }
        if let Some(socket) = self.report_socket {
            let mut buf: Vec<u8> = Vec::new();
            let mut j: usize = 0;
            while j < REPORT_BUFFER_LEN
                invariant
                    j <= REPORT_BUFFER_LEN,
                    buf@.len() == j,
                decreases REPORT_BUFFER_LEN - j,
            {
                buf.push(0);
                j = j + 1;
            }
            let mut n: usize = 0;
            while n < MAX_REPORTS_PER_POLL
                invariant
                    n <= MAX_REPORTS_PER_POLL,
                    buf@.len() == REPORT_BUFFER_LEN,
                    self.wf(),
                    self.model == old(self).model,
                    self.state != NavicoControllerState::Disconnected,
                    old(self).state == NavicoControllerState::Connected ==> self.state == NavicoControllerState::Connected,
                decreases MAX_REPORTS_PER_POLL - n,
            {
                match io.udp_recv_from(&socket, buf.as_mut_slice()) {
                    Some((len, _addr, _port)) => {
                        let data = vstd::slice::slice_subrange(buf.as_slice(), 0, len);
                        self.last_report = Some(process_report(data, self.model));
                        self.state = NavicoControllerState::Connected;
                        activity = true;
                    },
                    None => {
                        break;
                    },
                }
                n = n + 1;
            }
        }
        activity
    }

    fn start_sockets<I: IoProvider>(&mut self, io: &mut I)
        requires
            old(self).state == NavicoControllerState::Disconnected,
        ensures
            final(self).wf(),
            final(self).model == old(self).model,
            final(self).state != NavicoControllerState::Connected,
    {
        match io.udp_create() {
            Ok(socket) => {
                if io.udp_bind(&socket, 0).is_ok() {
                    self.command_socket = Some(socket);
                } else {
                    io.udp_close(socket);
                }
            },
            Err(_) => {},
        }
        match io.udp_create() {
            Ok(socket) => {
                if io.udp_bind(&socket, self.report_port).is_ok()
                    && io.udp_join_multicast(&socket, self.report_addr.as_str(), "").is_ok() {
                    self.report_socket = Some(socket);
                    self.state = NavicoControllerState::Listening;
                } else {
                    io.udp_close(socket);
                }
            },
            Err(_) => {},
        }
    }

    fn send_frames<I: IoProvider>(&self, io: &mut I, frames: &Vec<Vec<u8>>) {
        if let Some(socket) = self.command_socket {
            let mut i: usize = 0;
            while i < frames.len()
                invariant
                    i <= frames@.len(),
                decreases frames@.len() - i,
            {
                let _ = io.udp_send_to(&socket, frames[i].as_slice(), self.command_addr.as_str(), self.command_port);
                i = i + 1;
            }
        }
    }

    /// Sends the frames that set the control named `id` (see the command
    /// module for values); an id without a command, or a value that does not
    /// fit, sends nothing and is returned as the error.
    pub fn set_control<I: IoProvider>(&mut self, io: &mut I, id: &str, tenths: i32, auto: bool, enabled: bool, paired: Option<i32>) -> (r: Result<(), CommandError>)
        ensures
            r is Ok <==> (control_of_id(id@) is Some && value_fits(control_of_id(id@)->Some_0, tenths)),
            final(self).state_spec() == old(self).state_spec(),
            final(self).model_spec() == old(self).model_spec(),
            old(self).wf() ==> final(self).wf(),
    {
        match set_control(self.model, id, tenths, auto, enabled, paired) {
            Ok(frames) => {
                self.send_frames(io, &frames);
                Ok(())
            },
            Err(e) => Err(e),
        }
    }

    /// Closes both sockets.
    pub fn shutdown<I: IoProvider>(&mut self, io: &mut I)
        ensures
            final(self).wf(),
            final(self).state_spec() == NavicoControllerState::Disconnected,
            final(self).model_spec() == old(self).model_spec(),
    {
        if let Some(s) = self.command_socket.take() {
            io.udp_close(s);
        }
        if let Some(s) = self.report_socket.take() {
            io.udp_close(s);
        }
        self.state = NavicoControllerState::Disconnected;
    }
}

} // verus!
