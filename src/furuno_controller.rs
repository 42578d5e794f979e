//! Furuno controller over TCP.
//!
//! Disconnected: connect to the login port, send the login message and wait
//! for the 12-byte reply naming the session port; then connect to the session
//! port. Connected: send a keep-alive every 5 s, send the buffered control
//! frames, and apply each response line to the live state. Any I/O failure
//! drops back to Disconnected and the next attempt waits, doubling from 1 s up
//! to 30 s.
use vstd::prelude::*;
use vstd::utf8::{decode_utf8, valid_utf8};
use crate::furuno::{
    format_auto_acquire_command, format_bird_mode_command, format_blind_sector_command,
    format_gain_command, format_heading_align_command, format_interference_rejection_command,
    format_keepalive, format_main_bang_command, format_noise_reduction_command,
    format_rain_command, format_range_command, format_rezboost_command, format_scan_speed_command,
    format_sea_command, format_status_command, format_target_analyzer_command,
    format_tx_channel_command, format_antenna_height_command, login_message,
    meters_to_range_index, parse_login_response, BASE_PORT,
};
use crate::capabilities::ControlError;
use crate::furuno::{command_text, gain_args, sea_args, rain_args, flag, main_bang_value, range_table, CommandMode, CommandId};
use crate::io::{IoProvider, TcpSocketHandle};
use crate::state::{generate_state_requests, RadarState};

verus! {

/// Interval between keep-alives.
pub const KEEPALIVE_INTERVAL_MS: u64 = 5000;
/// Longest wait for the login reply.
pub const LOGIN_TIMEOUT_MS: u64 = 5000;
/// First retry delay after a failure.
pub const MIN_BACKOFF_MS: u64 = 1000;
/// Largest retry delay.
pub const MAX_BACKOFF_MS: u64 = 30000;
/// Most response lines applied in one poll.
pub const MAX_LINES_PER_POLL: usize = 64;
/// Size of the line receive buffer.
pub const LINE_BUFFER_LEN: usize = 1024;

/// Connection state of a Furuno controller.
#[derive(Debug, Clone, Copy, PartialEq, Eq, Structural)]
pub enum ControllerState {
    Disconnected,
    /// Login sent, waiting for the reply.
    LoggingIn,
    Connected,
}

/// Relies on `std::str::from_utf8`: it accepts exactly the valid UTF-8 byte
/// strings, and the text holds the characters they encode.
#[verifier::external_body]
fn utf8_text(b: &[u8]) -> (r: Option<String>)
    ensures
        match r {
            Some(s) => valid_utf8(b@) && s@ == decode_utf8(b@),
            None => !valid_utf8(b@),
        },
{
    std::str::from_utf8(b).ok().map(|s| s.to_string())
}

/// Retry delay after a failure with delay `backoff`.
pub open spec fn next_backoff(backoff: u64) -> u64 {
    if backoff * 2 > MAX_BACKOFF_MS { MAX_BACKOFF_MS } else { (backoff * 2) as u64 }
}

/// Controller of one Furuno radar.
pub struct FurunoController {
    radar_addr: String,
    state: ControllerState,
    socket: Option<TcpSocketHandle>,
    login_reply: Vec<u8>,
    login_deadline_ms: u64,
    session_port: u16,
    next_attempt_ms: u64,
    backoff_ms: u64,
    last_keepalive_ms: u64,
    pending: Vec<String>,
    radar_state: RadarState,
}

impl FurunoController {
    /// A socket exists exactly when not disconnected; the retry delay stays
    /// within 1..=30 s; the live state keeps its invariant.
    pub closed spec fn wf(&self) -> bool {
        &&& (self.state == ControllerState::Disconnected) == (self.socket is None)
        &&& MIN_BACKOFF_MS <= self.backoff_ms <= MAX_BACKOFF_MS
        &&& self.login_reply@.len() <= 12
        &&& self.radar_state.wf()
    }

    pub closed spec fn state_spec(&self) -> ControllerState {
        self.state
    }

    /// Frames waiting to be sent, oldest first.
    pub closed spec fn pending_spec(&self) -> Seq<Seq<char>> {
        self.pending@.map_values(|f: String| f@)
    }

    pub closed spec fn backoff_spec(&self) -> u64 {
        self.backoff_ms
    }

    pub closed spec fn radar_state_spec(&self) -> RadarState {
        self.radar_state
    }

    pub closed spec fn session_port_spec(&self) -> u16 {
        self.session_port
    }

    /// A disconnected controller for the radar at `radar_addr` (IPv4 text).
    pub fn new(radar_addr: &str) -> (c: FurunoController)
        ensures
            c.wf(),
            c.state_spec() == ControllerState::Disconnected,
            c.pending_spec().len() == 0,
            c.backoff_spec() == MIN_BACKOFF_MS,
    {
        let c = FurunoController {
            radar_addr: String::from_str(radar_addr),
            state: ControllerState::Disconnected,
            socket: None,
            login_reply: Vec::new(),
            login_deadline_ms: 0,
            session_port: 0,
            next_attempt_ms: 0,
            backoff_ms: MIN_BACKOFF_MS,
            last_keepalive_ms: 0,
            pending: Vec::new(),
            radar_state: RadarState::new(),
        };
        assert(c.pending_spec() =~= Seq::<Seq<char>>::empty());
        c
    }

    /// Connection state.
    pub fn state(&self) -> (s: ControllerState)
        ensures
            s == self.state_spec(),
    {
        self.state
    }

    /// Live state as last reported by the radar.
    pub fn radar_state(&self) -> (s: &RadarState)
        ensures
            *s == self.radar_state_spec(),
    {
        &self.radar_state
    }

    /// Session port named by the last login reply (0 before any).
    pub fn session_port(&self) -> (p: u16)
        ensures
            p == self.session_port_spec(),
    {
        self.session_port
    }

    /// Closes any socket and schedules the next attempt.
    fn fail<I: IoProvider>(&mut self, io: &mut I, now: u64)
        requires
            MIN_BACKOFF_MS <= old(self).backoff_ms <= MAX_BACKOFF_MS,
            old(self).login_reply@.len() <= 12,
            old(self).radar_state.wf(),
        ensures
            final(self).wf(),
            final(self).state == ControllerState::Disconnected,
            final(self).backoff_ms == next_backoff(old(self).backoff_ms),
            final(self).pending == old(self).pending,
            final(self).radar_state == old(self).radar_state,
            final(self).session_port == old(self).session_port,
    {
        if let Some(s) = self.socket.take() {
            io.tcp_close(s);
        }
        self.state = ControllerState::Disconnected;
        self.next_attempt_ms = now.saturating_add(self.backoff_ms);
        self.backoff_ms = if self.backoff_ms * 2 > MAX_BACKOFF_MS { MAX_BACKOFF_MS } else { self.backoff_ms * 2 };
    }

    /// One step of the session. Returns whether anything happened.
    pub fn poll<I: IoProvider>(&mut self, io: &mut I) -> (r: bool)
        requires
            old(self).wf(),
        ensures
            final(self).wf(),
            old(self).state_spec() == ControllerState::Connected && final(self).state_spec() == ControllerState::Connected
                ==> final(self).pending_spec().len() == 0,
            final(self).state_spec() == ControllerState::Connected && old(self).state_spec() != ControllerState::Connected
                ==> final(self).session_port_spec() >= BASE_PORT,
    {
        let now = io.current_time_ms();
        match self.state {
            ControllerState::Disconnected => {
                if now >= self.next_attempt_ms {
                    self.start_login(io, now);
                    true
                } else {
                    false
                }
            },
            ControllerState::LoggingIn => self.poll_login(io, now),
            ControllerState::Connected => self.poll_session(io, now),
        }
    }

    /// Connects to the login port and sends the login message.
    fn start_login<I: IoProvider>(&mut self, io: &mut I, now: u64)
        requires
            old(self).wf(),
            old(self).state == ControllerState::Disconnected,
        ensures
            final(self).wf(),
            final(self).state != ControllerState::Connected,
            final(self).pending == old(self).pending,
    {
        match io.tcp_create() {
            Ok(s) => {
                if io.tcp_connect(&s, self.radar_addr.as_str(), BASE_PORT).is_ok() {
                    let msg = login_message();
                    if io.tcp_send(&s, msg.as_slice()).is_ok() {
                        self.socket = Some(s);
                        self.login_reply = Vec::new();
                        self.login_deadline_ms = now.saturating_add(LOGIN_TIMEOUT_MS);
                        self.state = ControllerState::LoggingIn;
                        return;
                    }
                }
                io.tcp_close(s);
                self.fail(io, now);
            },
            Err(_) => {
                self.fail(io, now);
            },
        }
    }

    /// Collects the login reply; once complete, connects to the session port
    /// it names and queues requests for every readable control.
    fn poll_login<I: IoProvider>(&mut self, io: &mut I, now: u64) -> (r: bool)
        requires
            old(self).wf(),
            old(self).state == ControllerState::LoggingIn,
        ensures
            final(self).wf(),
            final(self).state == ControllerState::Connected ==> final(self).session_port >= BASE_PORT,
    {
        let s = match self.socket {
            Some(s) => s,
            None => {
                return false;
            },
        };
        let mut buf: Vec<u8> = Vec::new();
        let mut j: usize = 0;
        while j < 12
            invariant
                j <= 12,
                buf@.len() == j,
            decreases 12 - j,
        {
            buf.push(0);
            j = j + 1;
        }
        match io.tcp_recv_raw(&s, buf.as_mut_slice()) {
            Some(n) => {
                let mut k: usize = 0;
                while k < n && self.login_reply.len() < 12
                    invariant
                        self.wf(),
                        self.state == ControllerState::LoggingIn,
                        self.socket == Some(s),
                        n <= buf@.len(),
                        k <= n,
                    decreases n - k,
                {
                    self.login_reply.push(buf[k]);
                    k = k + 1;
                }
            },
            None => {
                if now >= self.login_deadline_ms {
                    self.fail(io, now);
                    return true;
                }
                return false;
            },
        }
        if self.login_reply.len() < 12 {
            return true;
        }
        match parse_login_response(self.login_reply.as_slice()) {
            Some(port) => {
                io.tcp_close(s);
                self.socket = None;
                self.session_port = port;
                proof {
                    assert(port >= BASE_PORT);
                }
                match io.tcp_create() {
                    Ok(t) => {
                        if io.tcp_connect(&t, self.radar_addr.as_str(), port).is_ok() {
                            self.socket = Some(t);
                            self.state = ControllerState::Connected;
                            self.backoff_ms = MIN_BACKOFF_MS;
                            self.last_keepalive_ms = now;
                            let mut requests = generate_state_requests();
                            self.pending.append(&mut requests);
                        } else {
                            io.tcp_close(t);
                            self.fail(io, now);
                        }
                    },
                    Err(_) => {
                        self.fail(io, now);
                    },
                }
            },
            None => {
                self.fail(io, now);
            },
        }
        true
    }

    /// Keep-alive, buffered frames, then response lines.
    fn poll_session<I: IoProvider>(&mut self, io: &mut I, now: u64) -> (r: bool)
        requires
            old(self).wf(),
            old(self).state == ControllerState::Connected,
        ensures
            final(self).wf(),
            final(self).state != ControllerState::LoggingIn,
            final(self).state == ControllerState::Connected ==> final(self).pending@.len() == 0,
            final(self).session_port == old(self).session_port,
    {
        let s = match self.socket {
            Some(s) => s,
            None => {
                return false;
            },
        };
        let mut activity = false;
        if now >= self.last_keepalive_ms.saturating_add(KEEPALIVE_INTERVAL_MS) {
            let k = format_keepalive();
            if io.tcp_send(&s, k.as_str().as_bytes()).is_err() {
                self.fail(io, now);
                return true;
            }
            self.last_keepalive_ms = now;
            activity = true;
        }
        let mut i: usize = 0;
        while i < self.pending.len()
            invariant
                self.wf(),
                self.state == ControllerState::Connected,
                self.socket == Some(s),
                self.session_port == old(self).session_port,
                i <= self.pending@.len(),
            decreases self.pending@.len() - i,
        {
            if io.tcp_send(&s, self.pending[i].as_str().as_bytes()).is_err() {
                self.fail(io, now);
                return true;
            }
            activity = true;
            i = i + 1;
        }
        self.pending = Vec::new();
        let mut buf: Vec<u8> = Vec::new();
        let mut j: usize = 0;
        while j < LINE_BUFFER_LEN
            invariant
                j <= LINE_BUFFER_LEN,
                buf@.len() == j,
            decreases LINE_BUFFER_LEN - j,
        {
            buf.push(0);
            j = j + 1;
        }
        let mut n: usize = 0;
        while n < MAX_LINES_PER_POLL
            invariant
                self.wf(),
                self.state == ControllerState::Connected,
                self.pending@.len() == 0,
                self.session_port == old(self).session_port,
                buf@.len() == LINE_BUFFER_LEN,
            decreases MAX_LINES_PER_POLL - n,
        {
            match io.tcp_recv_line(&s, buf.as_mut_slice()) {
                Some(len) => {
                    let bytes = vstd::slice::slice_subrange(buf.as_slice(), 0, len);
                    if let Some(line) = utf8_text(bytes) {
                        self.radar_state.update_from_response(line.as_str());
                    }
                    activity = true;
                },
                None => {
                    break;
                },
            }
            n = n + 1;
        }
        activity
    }

    /// Queues a frame for the next poll.
    fn queue(&mut self, frame: String)
        ensures
            final(self).pending_spec() == old(self).pending_spec().push(frame@),
            final(self).state == old(self).state,
            final(self).socket == old(self).socket,
            final(self).backoff_ms == old(self).backoff_ms,
            final(self).login_reply == old(self).login_reply,
            final(self).radar_state == old(self).radar_state,
    {
        let ghost before = self.pending_spec();
        self.pending.push(frame);
        assert(self.pending_spec() =~= before.push(frame@));
    }
}

/// Wire index of the supported range of exactly `meters`, if any.
pub open spec fn exact_range_index(meters: u32) -> Option<i32> {
    if exists|k: int| 0 <= k < 18 && #[trigger] range_table()[k].1 == meters as int {
        Some(range_table()[choose|k: int| 0 <= k < 18 && #[trigger] range_table()[k].1 == meters as int].0)
    } else {
        None
    }
}

/// Wire index of the supported range of exactly `meters`: the index
/// `meters_to_range_index` gives, when its range is `meters` itself.
pub(crate) fn find_exact_range(meters: u32) -> (r: Option<i32>)
    ensures
        match r {
            Some(i) => (exists|k: int| 0 <= k < 18 && #[trigger] range_table()[k].1 == meters as int && range_table()[k].0 == i)
                && meters <= 88896
                && i == range_table()[crate::furuno::nearest_position(meters as i32, 18)].0,
            None => exact_range_index(meters) is None,
        },
{
    if meters > 88896 {
        return None;
    }
    let m = meters as i32;
    let idx = meters_to_range_index(m);
    match crate::furuno::range_index_to_meters(idx) {
        Some(found) => {
            if found == m {
                proof {
                    crate::furuno::lemma_range_round_trip(m);
                }
                Some(idx)
            } else {
                proof {
                    crate::furuno::lemma_range_round_trip(m);
                    let k0 = crate::furuno::nearest_position(m, 18);
                    if exists|k: int| 0 <= k < 18 && #[trigger] range_table()[k].1 == meters as int {
                        let k = choose|k: int| 0 <= k < 18 && #[trigger] range_table()[k].1 == meters as int;
                        assert(crate::furuno::range_distance(k, m) == 0);
                        assert(crate::furuno::range_distance(k0, m) <= crate::furuno::range_distance(k, m));
                    }
                }
                None
            }
        },
        None => {
            proof {
                crate::furuno::lemma_range_round_trip(m);
            }
            None
        },
    }
}

fn invalid(msg: &str) -> (e: ControlError)
    ensures
        e is InvalidValue,
{
    ControlError::InvalidValue(String::from_str(msg))
}

impl FurunoController {
    /// Transmit or standby.
    pub fn set_power(&mut self, transmit: bool)
        ensures
            final(self).pending_spec() == old(self).pending_spec().push(
                command_text(CommandMode::SetValue, CommandId::Status, seq![if transmit { 2i32 } else { 1i32 }, 0, 0, 60, 300, 0]),
            ),
            old(self).wf() ==> final(self).wf(),
            final(self).state_spec() == old(self).state_spec(),
    {
        self.queue(format_status_command(transmit));
    }

    /// Range in meters; only the supported ranges are accepted.
    pub fn set_range(&mut self, meters: u32) -> (r: Result<(), ControlError>)
        ensures
            r is Ok <==> exact_range_index(meters) is Some,
            r is Ok ==> exists|k: int| 0 <= k < 18 && #[trigger] range_table()[k].1 == meters as int
                && final(self).pending_spec() == old(self).pending_spec().push(
                    command_text(CommandMode::SetValue, CommandId::Range, seq![range_table()[k].0, 0, 0]),
                ),
            r is Err ==> final(self).pending_spec() == old(self).pending_spec(),
            old(self).wf() ==> final(self).wf(),
            final(self).state_spec() == old(self).state_spec(),
    {
        match find_exact_range(meters) {
            Some(index) => {
                self.queue(format_range_command(index));
                Ok(())
            },
            None => Err(invalid("range must be one of the supported ranges")),
        }
    }

    /// Gain 0..=100 and auto flag.
    pub fn set_gain(&mut self, value: i32, auto: bool) -> (r: Result<(), ControlError>)
        ensures
            r is Ok <==> 0 <= value <= 100,
            r is Ok ==> final(self).pending_spec() == old(self).pending_spec().push(
                command_text(CommandMode::SetValue, CommandId::Gain, gain_args(value, auto)),
            ),
            r is Err ==> final(self).pending_spec() == old(self).pending_spec(),
            old(self).wf() ==> final(self).wf(),
            final(self).state_spec() == old(self).state_spec(),
    {
        if value < 0 || value > 100 {
            return Err(invalid("gain must be 0-100"));
        }
        self.queue(format_gain_command(value, auto));
        Ok(())
    }

    /// Sea clutter 0..=100 and auto flag.
    pub fn set_sea(&mut self, value: i32, auto: bool) -> (r: Result<(), ControlError>)
        ensures
            r is Ok <==> 0 <= value <= 100,
            r is Ok ==> final(self).pending_spec() == old(self).pending_spec().push(
                command_text(CommandMode::SetValue, CommandId::Sea, sea_args(value, auto)),
            ),
            r is Err ==> final(self).pending_spec() == old(self).pending_spec(),
            old(self).wf() ==> final(self).wf(),
            final(self).state_spec() == old(self).state_spec(),
    {
        if value < 0 || value > 100 {
            return Err(invalid("sea must be 0-100"));
        }
        self.queue(format_sea_command(value, auto));
        Ok(())
    }

    /// Rain clutter 0..=100 and auto flag.
    pub fn set_rain(&mut self, value: i32, auto: bool) -> (r: Result<(), ControlError>)
        ensures
            r is Ok <==> 0 <= value <= 100,
            r is Ok ==> final(self).pending_spec() == old(self).pending_spec().push(
                command_text(CommandMode::SetValue, CommandId::Rain, rain_args(value, auto)),
            ),
            r is Err ==> final(self).pending_spec() == old(self).pending_spec(),
            old(self).wf() ==> final(self).wf(),
            final(self).state_spec() == old(self).state_spec(),
    {
        if value < 0 || value > 100 {
            return Err(invalid("rain must be 0-100"));
        }
        self.queue(format_rain_command(value, auto));
        Ok(())
    }

    /// Noise reduction on or off.
    pub fn set_noise_reduction(&mut self, enabled: bool)
        ensures
            final(self).pending_spec() == old(self).pending_spec().push(
                command_text(CommandMode::SetValue, CommandId::SignalProcessing, seq![0, 3, flag(enabled), 0]),
            ),
            old(self).wf() ==> final(self).wf(),
            final(self).state_spec() == old(self).state_spec(),
    {
        self.queue(format_noise_reduction_command(enabled));
    }

    /// Interference rejection on or off.
    pub fn set_interference_rejection(&mut self, enabled: bool)
        ensures
            final(self).pending_spec() == old(self).pending_spec().push(
                command_text(CommandMode::SetValue, CommandId::SignalProcessing, seq![0, 0, if enabled { 2i32 } else { 0i32 }, 0]),
            ),
            old(self).wf() ==> final(self).wf(),
            final(self).state_spec() == old(self).state_spec(),
    {
        self.queue(format_interference_rejection_command(enabled));
    }

    /// Beam sharpening (RezBoost) level on the primary screen.
    pub fn set_rezboost(&mut self, level: i32)
        ensures
            final(self).pending_spec() == old(self).pending_spec().push(
                command_text(CommandMode::SetValue, CommandId::RezBoost, seq![level, 0]),
            ),
            old(self).wf() ==> final(self).wf(),
            final(self).state_spec() == old(self).state_spec(),
    {
        self.queue(format_rezboost_command(level, 0));
    }

    /// Bird mode level on the primary screen.
    pub fn set_bird_mode(&mut self, level: i32)
        ensures
            final(self).pending_spec() == old(self).pending_spec().push(
                command_text(CommandMode::SetValue, CommandId::BirdMode, seq![level, 0]),
            ),
            old(self).wf() ==> final(self).wf(),
            final(self).state_spec() == old(self).state_spec(),
    {
        self.queue(format_bird_mode_command(level, 0));
    }

    /// Doppler (target analyzer) on or off, mode 0 target or 1 rain.
    pub fn set_target_analyzer(&mut self, enabled: bool, mode: i32)
        ensures
            final(self).pending_spec() == old(self).pending_spec().push(
                command_text(CommandMode::SetValue, CommandId::TargetAnalyzer, seq![flag(enabled), mode, 0]),
            ),
            old(self).wf() ==> final(self).wf(),
            final(self).state_spec() == old(self).state_spec(),
    {
        self.queue(format_target_analyzer_command(enabled, mode, 0));
    }

    /// Antenna revolution mode.
    pub fn set_scan_speed(&mut self, mode: i32)
        ensures
            final(self).pending_spec() == old(self).pending_spec().push(
                command_text(CommandMode::SetValue, CommandId::ScanSpeed, seq![mode, 0]),
            ),
            old(self).wf() ==> final(self).wf(),
            final(self).state_spec() == old(self).state_spec(),
    {
        self.queue(format_scan_speed_command(mode));
    }

    /// Bearing alignment in tenths of a degree, -1800..=1800.
    pub fn set_bearing_alignment(&mut self, tenths: i32) -> (r: Result<(), ControlError>)
        ensures
            r is Ok <==> -1800 <= tenths <= 1800,
            r is Ok ==> final(self).pending_spec() == old(self).pending_spec().push(
                command_text(CommandMode::SetValue, CommandId::HeadingAlign, seq![tenths, 0]),
            ),
            r is Err ==> final(self).pending_spec() == old(self).pending_spec(),
            old(self).wf() ==> final(self).wf(),
            final(self).state_spec() == old(self).state_spec(),
    {
        if tenths < -1800 || tenths > 1800 {
            return Err(invalid("bearingAlignment must be -180..180 degrees"));
        }
        self.queue(format_heading_align_command(tenths));
        Ok(())
    }

    /// Antenna height, 0..=100 m.
    pub fn set_antenna_height(&mut self, meters: i32) -> (r: Result<(), ControlError>)
        ensures
            r is Ok <==> 0 <= meters <= 100,
            r is Ok ==> final(self).pending_spec() == old(self).pending_spec().push(
                command_text(CommandMode::SetValue, CommandId::AntennaHeight, seq![0, meters, 0]),
            ),
            r is Err ==> final(self).pending_spec() == old(self).pending_spec(),
            old(self).wf() ==> final(self).wf(),
            final(self).state_spec() == old(self).state_spec(),
    {
        if meters < 0 || meters > 100 {
            return Err(invalid("antennaHeight must be 0-100 meters"));
        }
        self.queue(format_antenna_height_command(meters));
        Ok(())
    }

    /// Main bang suppression, 0..=100 %.
    pub fn set_main_bang_suppression(&mut self, percent: i32) -> (r: Result<(), ControlError>)
        ensures
            r is Ok <==> 0 <= percent <= 100,
            r is Ok ==> final(self).pending_spec() == old(self).pending_spec().push(
                command_text(CommandMode::SetValue, CommandId::MainBangSize, seq![main_bang_value(percent), 0]),
            ),
            r is Err ==> final(self).pending_spec() == old(self).pending_spec(),
            old(self).wf() ==> final(self).wf(),
            final(self).state_spec() == old(self).state_spec(),
    {
        if percent < 0 || percent > 100 {
            return Err(invalid("mainBangSuppression must be 0-100"));
        }
        self.queue(format_main_bang_command(percent));
        Ok(())
    }

    /// Transmit channel (0 auto, 1..=3).
    pub fn set_tx_channel(&mut self, channel: i32)
        ensures
            final(self).pending_spec() == old(self).pending_spec().push(
                command_text(CommandMode::SetValue, CommandId::TxChannel, seq![channel]),
            ),
            old(self).wf() ==> final(self).wf(),
            final(self).state_spec() == old(self).state_spec(),
    {
        self.queue(format_tx_channel_command(channel));
    }

    /// Automatic acquisition by Doppler.
    pub fn set_auto_acquire(&mut self, enabled: bool)
        ensures
            final(self).pending_spec() == old(self).pending_spec().push(
                command_text(CommandMode::SetValue, CommandId::AutoAcquire, seq![flag(enabled)]),
            ),
            old(self).wf() ==> final(self).wf(),
            final(self).state_spec() == old(self).state_spec(),
    {
        self.queue(format_auto_acquire_command(enabled));
    }

    /// Two no-transmit zones, each enabled or not, from `start` to `end`
    /// degrees (0..360). A zone is sent as its start and clockwise width; a
    /// disabled zone as width 0.
    pub fn set_blind_sector(&mut self, z1_enabled: bool, z1_start: i32, z1_end: i32, z2_enabled: bool, z2_start: i32, z2_end: i32) -> (r: Result<(), ControlError>)
        ensures
            r is Ok <==> (0 <= z1_start < 360 && 0 <= z1_end < 360 && 0 <= z2_start < 360 && 0 <= z2_end < 360),
            r is Ok ==> final(self).pending_spec() == old(self).pending_spec().push(
                command_text(CommandMode::SetValue, CommandId::BlindSector, seq![
                    flag(z2_enabled),
                    z1_start,
                    if z1_enabled { ((z1_end - z1_start + 360) % 360) as i32 } else { 0i32 },
                    z2_start,
                    if z2_enabled { ((z2_end - z2_start + 360) % 360) as i32 } else { 0i32 },
                ]),
            ),
            r is Err ==> final(self).pending_spec() == old(self).pending_spec(),
            old(self).wf() ==> final(self).wf(),
            final(self).state_spec() == old(self).state_spec(),
    {
        if z1_start < 0 || z1_start >= 360 || z1_end < 0 || z1_end >= 360 || z2_start < 0 || z2_start >= 360 || z2_end < 0 || z2_end >= 360 {
            return Err(invalid("no-transmit zone angles must be 0-359"));
        }
        let w1: i32 = if z1_enabled { (z1_end - z1_start + 360) % 360 } else { 0 };
        let w2: i32 = if z2_enabled { (z2_end - z2_start + 360) % 360 } else { 0 };
        self.queue(format_blind_sector_command(z2_enabled, z1_start, w1, z2_start, w2));
        Ok(())
    }

    /// Closes the session.
    pub fn shutdown<I: IoProvider>(&mut self, io: &mut I)
        requires
            old(self).wf(),
        ensures
            final(self).wf(),
            final(self).state_spec() == ControllerState::Disconnected,
    {
        if let Some(s) = self.socket.take() {
            io.tcp_close(s);
        }
        self.state = ControllerState::Disconnected;
    }
}

} // verus!
