//! Raymarine controller over UDP (Quantum and RD series).
//!
//! Commands go to the radar's command address; reports arrive on a
//! multicast group. Quantum frames carry `0x28 0x00` after the little-endian
//! opcode, RD frames `0x01 0x00`.
use vstd::prelude::*;
use crate::io::{IoProvider, UdpSocketHandle};

verus! {

/// Most datagrams drained from the report socket in one poll, so that a
/// flooding socket cannot hold up the caller's loop.
pub const MAX_REPORTS_PER_POLL: usize = 256;

/// Size of the report receive buffer.
pub const REPORT_BUFFER_LEN: usize = 2048;

/// Raymarine radar family.
#[derive(Debug, Clone, Copy, PartialEq, Eq, Structural)]
pub enum RaymarineVariant {
    /// Quantum (solid-state) series.
    Quantum,
    /// RD (magnetron) series.
    RD,
}

impl Default for RaymarineVariant {
    fn default() -> (v: RaymarineVariant)
        ensures
            v == RaymarineVariant::Quantum,
    {
        RaymarineVariant::Quantum
    }
}

/// Connection state of a controller.
#[derive(Debug, Clone, Copy, PartialEq, Eq, Structural)]
pub enum RaymarineControllerState {
    /// Sockets not set up.
    Disconnected,
    /// Report socket joined, no report seen yet.
    Listening,
    /// Reports arriving; ready for commands.
    Connected,
}

/// A control change, with the values the wire carries.
#[derive(Debug, Clone, Copy, PartialEq, Eq, Structural)]
pub enum RaymarineControl {
    Power { transmit: bool },
    Range { index: u8 },
    Gain { value: u8, auto: bool },
    Sea { value: u8, auto: bool },
    Rain { value: u8, enabled: bool },
    InterferenceRejection { level: u8 },
    TargetExpansion { level: u8 },
    /// Bearing alignment in tenths of a degree.
    BearingAlignment { tenths: i16 },
    /// RD only.
    Ftc { value: u8, enabled: bool },
    /// RD only.
    Tune { value: u8, auto: bool },
    /// Quantum only (0 harbor, 1 coastal, 2 offshore, 3 weather).
    Mode { mode: u8 },
    /// Quantum only.
    ColorGain { value: u8, auto: bool },
}

pub open spec fn le16(v: u16) -> Seq<u8> {
    seq![(v % 256) as u8, (v / 256) as u8]
}

pub open spec fn quantum_frame(opcode: u16, data: Seq<u8>) -> Seq<u8> {
    le16(opcode) + seq![0x28u8, 0x00u8] + data
}

pub open spec fn rd_frame(opcode: u16, data: Seq<u8>) -> Seq<u8> {
    le16(opcode) + seq![0x01u8, 0x00u8] + data
}

pub open spec fn bit(b: bool) -> u8 {
    if b { 1 } else { 0 }
}

/// Two's-complement 16-bit pattern of `t`.
pub open spec fn i16_bits(t: i16) -> u16 {
    (if t < 0 { t as int + 65536 } else { t as int }) as u16
}

/// The 20-byte RD payload that sets a gain-like value or its auto flag.
pub open spec fn rd_gain_payload(v: u8) -> Seq<u8> {
    seq![1u8, 0, 0, 0, 0, 0, 0, 0, 1, 0, 0, 0, 0, 0, 0, 0, v, 0, 0, 0]
}

/// The 16-byte RD payload carrying a flag and a value.
pub open spec fn rd_pair_payload(f: u8, v: u8) -> Seq<u8> {
    seq![1u8, 0, 0, 0, 0, 0, 0, 0, f, 0, 0, 0, v, 0, 0, 0]
}

/// The frames, in order, that apply `c` on a radar of `variant`. Controls a
/// family lacks (FTC and tune on Quantum; mode and color gain on RD) send
/// nothing.
pub open spec fn control_frames(variant: RaymarineVariant, c: RaymarineControl) -> Seq<Seq<u8>> {
    let q = variant == RaymarineVariant::Quantum;
    match c {
        RaymarineControl::Power { transmit } => if q {
            seq![quantum_frame(0x0100, seq![bit(transmit), 0, 0, 0])]
        } else {
            seq![rd_frame(0x8001, seq![bit(transmit), 0, 0, 0])]
        },
        RaymarineControl::Range { index } => if q {
            seq![quantum_frame(0x0101, seq![0u8, index, 0, 0])]
        } else {
            seq![rd_frame(0x8101, seq![1u8, 0, 0, 0, index, 0, 0, 0])]
        },
        RaymarineControl::Gain { value, auto } => if q {
            seq![quantum_frame(0x0106, seq![bit(auto), value, 0, 0])]
        } else if auto {
            seq![rd_frame(0x8301, rd_gain_payload(1))]
        } else {
            seq![rd_frame(0x8301, rd_gain_payload(0)), rd_frame(0x8301, rd_gain_payload(value))]
        },
        RaymarineControl::Sea { value, auto } => if q {
            seq![quantum_frame(0x0107, seq![bit(auto), value, 0, 0])]
        } else {
            seq![rd_frame(0x8401, rd_pair_payload(bit(auto), value))]
        },
        RaymarineControl::Rain { value, enabled } => if q {
            seq![quantum_frame(0x0108, seq![bit(enabled), value, 0, 0])]
        } else {
            seq![rd_frame(0x8501, rd_pair_payload(bit(enabled), value))]
        },
        RaymarineControl::InterferenceRejection { level } => if q {
            seq![quantum_frame(0x0109, seq![level, 0, 0, 0])]
        } else {
            seq![rd_frame(0x8A01, seq![1u8, 0, 0, 0, level, 0, 0, 0])]
        },
        RaymarineControl::TargetExpansion { level } => if q {
            seq![quantum_frame(0x010A, seq![level, 0, 0, 0])]
        } else {
            seq![rd_frame(0x8901, seq![1u8, 0, 0, 0, level, 0, 0, 0])]
        },
        RaymarineControl::BearingAlignment { tenths } => {
            let b = le16(i16_bits(tenths));
            if q {
                seq![quantum_frame(0x010B, seq![b[0], b[1], 0, 0])]
            } else {
                seq![rd_frame(0x8B01, seq![1u8, 0, 0, 0, b[0], b[1], 0, 0])]
            }
        },
        RaymarineControl::Ftc { value, enabled } => if q {
            seq![]
        } else {
            seq![rd_frame(0x8601, rd_pair_payload(bit(enabled), value))]
        },
        RaymarineControl::Tune { value, auto } => if q {
            seq![]
        } else {
            seq![rd_frame(0x8701, rd_pair_payload(bit(auto), value))]
        },
        RaymarineControl::Mode { mode } => if q {
            seq![quantum_frame(0x010C, seq![mode, 0, 0, 0])]
        } else {
            seq![]
        },
        RaymarineControl::ColorGain { value, auto } => if q {
            seq![quantum_frame(0x010D, seq![bit(auto), value, 0, 0])]
        } else {
            seq![]
        },
    }
}

/// Little-endian 32-bit report id of a report of at least 4 bytes.
pub open spec fn report_id_of(data: Seq<u8>) -> Option<u32> {
    if data.len() >= 4 {
        Some((data[0] as int + data[1] as int * 0x100 + data[2] as int * 0x10000 + data[3] as int * 0x1000000) as u32)
    } else {
        None
    }
}

/// Controller of one Raymarine radar.
pub struct RaymarineController {
    radar_id: String,
    command_addr: String,
    command_port: u16,
    report_addr: String,
    report_port: u16,
    command_socket: Option<UdpSocketHandle>,
    report_socket: Option<UdpSocketHandle>,
    state: RaymarineControllerState,
    variant: RaymarineVariant,
    poll_count: u64,
    has_doppler: bool,
}

fn frame_with(opcode: u16, b2: u8, data: &[u8]) -> (r: Vec<u8>)
    ensures
        r@ == le16(opcode) + seq![b2, 0x00u8] + data@,
{
    let mut cmd: Vec<u8> = Vec::new();
    cmd.push((opcode % 256) as u8);
    cmd.push((opcode / 256) as u8);
    cmd.push(b2);
    cmd.push(0x00);
    let mut i: usize = 0;
    while i < data.len()
        invariant
            i <= data@.len(),
            cmd@ == le16(opcode) + seq![b2, 0x00u8] + data@.subrange(0, i as int),
        decreases data@.len() - i,
    {
        cmd.push(data[i]);
        i = i + 1;
        assert(cmd@ =~= le16(opcode) + seq![b2, 0x00u8] + data@.subrange(0, i as int));
    }
    assert(data@.subrange(0, data@.len() as int) =~= data@);
    cmd
}

impl RaymarineController {
    /// Well-formed: a controller past `Disconnected` holds its report socket.
    pub closed spec fn wf(&self) -> bool {
        self.state != RaymarineControllerState::Disconnected ==> self.report_socket is Some
    }

    pub closed spec fn state_spec(&self) -> RaymarineControllerState {
        self.state
    }

    pub closed spec fn variant_spec(&self) -> RaymarineVariant {
        self.variant
    }

    pub closed spec fn has_doppler_spec(&self) -> bool {
        self.has_doppler
    }

    pub closed spec fn poll_count_spec(&self) -> u64 {
        self.poll_count
    }

    /// Both sockets closed.
    pub closed spec fn no_sockets(&self) -> bool {
        self.command_socket is None && self.report_socket is None
    }

    /// Radar id, command endpoint and report endpoint.
    pub closed spec fn endpoints(&self) -> (Seq<char>, Seq<char>, u16, Seq<char>, u16) {
        (self.radar_id@, self.command_addr@, self.command_port, self.report_addr@, self.report_port)
    }

    /// A controller for the radar at the given command and report endpoints;
    /// starts `Disconnected` with no sockets.
    pub fn new(
        radar_id: &str,
        command_addr: &str,
        command_port: u16,
        report_addr: &str,
        report_port: u16,
        variant: RaymarineVariant,
        has_doppler: bool,
    ) -> (c: Self)
        ensures
            c.wf(),
            c.state_spec() == RaymarineControllerState::Disconnected,
            c.variant_spec() == variant,
            c.has_doppler_spec() == has_doppler,
            c.endpoints() == (radar_id@, command_addr@, command_port, report_addr@, report_port),
            c.no_sockets(),
            c.poll_count_spec() == 0,
    {
        RaymarineController {
            radar_id: String::from_str(radar_id),
            command_addr: String::from_str(command_addr),
            command_port,
            report_addr: String::from_str(report_addr),
            report_port,
            command_socket: None,
            report_socket: None,
            state: RaymarineControllerState::Disconnected,
            variant,
            poll_count: 0,
            has_doppler,
        }
    }

    /// Current connection state.
    pub fn state(&self) -> (s: RaymarineControllerState)
        ensures
            s == self.state_spec(),
    {
        self.state
    }

    /// Whether reports are arriving.
    pub fn is_connected(&self) -> (b: bool)
        ensures
            b == (self.state_spec() == RaymarineControllerState::Connected),
    {
        self.state == RaymarineControllerState::Connected
    }

    /// Radar family.
    pub fn variant(&self) -> (v: RaymarineVariant)
        ensures
            v == self.variant_spec(),
    {
        self.variant
    }

    /// Whether the radar has Doppler.
    pub fn has_doppler(&self) -> (b: bool)
        ensures
            b == self.has_doppler_spec(),
    {
        self.has_doppler
    }

    /// One step of the controller. `Disconnected`: set up the sockets
    /// (returns `true`). Otherwise drain pending reports; the first report
    /// moves `Listening` to `Connected`. Returns whether anything happened.
    pub fn poll<I: IoProvider>(&mut self, io: &mut I) -> (r: bool)
        requires
            old(self).wf(),
        ensures
            final(self).wf(),
            final(self).variant_spec() == old(self).variant_spec(),
            final(self).has_doppler_spec() == old(self).has_doppler_spec(),
            final(self).endpoints() == old(self).endpoints(),
            final(self).poll_count_spec() == if old(self).poll_count_spec() < u64::MAX {
                old(self).poll_count_spec() + 1
            } else {
                old(self).poll_count_spec() as int
            },
            old(self).state_spec() == RaymarineControllerState::Disconnected ==> r
                && final(self).state_spec() != RaymarineControllerState::Connected,
            old(self).state_spec() == RaymarineControllerState::Connected ==> final(self).state_spec()
                == RaymarineControllerState::Connected,
            old(self).state_spec() == RaymarineControllerState::Listening ==> final(self).state_spec() == (if r {
                RaymarineControllerState::Connected
            } else {
                RaymarineControllerState::Listening
            }),
    {
        self.poll_count = self.poll_count.saturating_add(1);
        match self.state {
            RaymarineControllerState::Disconnected => {
                self.start_sockets(io);
                true
            },
            RaymarineControllerState::Listening | RaymarineControllerState::Connected => self.poll_connected(io),
        }
    }

    /// Creates the command socket and the report socket; the controller
    /// listens once the report socket has joined its group.
    fn start_sockets<I: IoProvider>(&mut self, io: &mut I)
        requires
            old(self).state == RaymarineControllerState::Disconnected,
        ensures
            final(self).wf(),
            final(self).variant == old(self).variant,
            final(self).has_doppler == old(self).has_doppler,
            final(self).endpoints() == old(self).endpoints(),
            final(self).poll_count == old(self).poll_count,
            final(self).state == RaymarineControllerState::Disconnected
                || final(self).state == RaymarineControllerState::Listening,
    {
        match io.udp_create() {
            Ok(socket) => {
                if io.udp_bind(&socket, 0).is_ok() {
                    self.command_socket = Some(socket);
                } else {
                    io.udp_close(socket);
                }
            },
            Err(_) => {},
        }
        match io.udp_create() {
            Ok(socket) => {
                if io.udp_bind(&socket, self.report_port).is_ok() {
                    if io.udp_join_multicast(&socket, self.report_addr.as_str(), "").is_ok() {
                        self.report_socket = Some(socket);
                        self.state = RaymarineControllerState::Listening;
                    } else {
                        io.udp_close(socket);
                    }
                } else {
                    io.udp_close(socket);
                }
            },
            Err(_) => {},
        }
    }

    /// Drains up to `MAX_REPORTS_PER_POLL` reports; returns whether any came.
    fn poll_connected<I: IoProvider>(&mut self, io: &mut I) -> (activity: bool)
        requires
            old(self).wf(),
            old(self).state != RaymarineControllerState::Disconnected,
        ensures
            final(self).wf(),
            final(self).variant == old(self).variant,
            final(self).has_doppler == old(self).has_doppler,
            final(self).endpoints() == old(self).endpoints(),
            final(self).poll_count == old(self).poll_count,
            final(self).state == (if activity { RaymarineControllerState::Connected } else { old(self).state }),
    {
        let mut activity = false;
        if let Some(socket) = self.report_socket {
            let mut buf: Vec<u8> = Vec::new();
            let mut j: usize = 0;
            while j < REPORT_BUFFER_LEN
                invariant
                    j <= REPORT_BUFFER_LEN,
                    buf@.len() == j,
                decreases REPORT_BUFFER_LEN - j,
            {
                buf.push(0);
                j = j + 1;
            }
            let mut n: usize = 0;
            while n < MAX_REPORTS_PER_POLL
                invariant
                    n <= MAX_REPORTS_PER_POLL,
                    buf@.len() == REPORT_BUFFER_LEN,
                    self.wf(),
                    self.variant == old(self).variant,
                    self.has_doppler == old(self).has_doppler,
                    self.endpoints() == old(self).endpoints(),
                    self.poll_count == old(self).poll_count,
                    self.state == (if activity { RaymarineControllerState::Connected } else { old(self).state }),
                    self.state != RaymarineControllerState::Disconnected,
                decreases MAX_REPORTS_PER_POLL - n,
            {
                match io.udp_recv_from(&socket, buf.as_mut_slice()) {
                    Some((len, _addr, _port)) => {
                        let _report_id = self.process_report(buf.as_slice(), len);
                        activity = true;
                        if self.state == RaymarineControllerState::Listening {
                            self.state = RaymarineControllerState::Connected;
                        }
                    },
                    None => {
                        break;
                    },
                }
                n = n + 1;
            }
        }
        activity
    }

    /// Id of the report in `data[..len]`: its first four bytes, little-endian
    /// (`None` for a shorter report).
    fn process_report(&self, data: &[u8], len: usize) -> (r: Option<u32>)
        requires
            len <= data@.len(),
        ensures
            r == report_id_of(data@.subrange(0, len as int)),
    {
        if len < 4 {
            return None;
        }
        let id: u32 = data[0] as u32 + (data[1] as u32) * 0x100 + (data[2] as u32) * 0x10000 + (data[3] as u32) * 0x1000000;
        Some(id)
    }

    /// Sends one frame to the command address, if the command socket exists.
    fn send_command<I: IoProvider>(&self, io: &mut I, data: &[u8]) {
        if let Some(socket) = self.command_socket {
            let _ = io.udp_send_to(&socket, data, self.command_addr.as_str(), self.command_port);
        }
    }

    /// A Quantum frame: opcode (little-endian), `0x28 0x00`, payload.
    fn quantum_command(&self, opcode: u16, data: &[u8]) -> (r: Vec<u8>)
        ensures
            r@ == quantum_frame(opcode, data@),
    {
        frame_with(opcode, 0x28, data)
    }

    /// An RD frame: opcode (little-endian), `0x01 0x00`, payload.
    fn rd_command(&self, opcode: u16, data: &[u8]) -> (r: Vec<u8>)
        ensures
            r@ == rd_frame(opcode, data@),
    {
        frame_with(opcode, 0x01, data)
    }

    fn frame_for(&self, quantum_op: u16, quantum_data: &[u8], rd_op: u16, rd_data: &[u8]) -> (r: Vec<u8>)
        ensures
            r@ == if self.variant == RaymarineVariant::Quantum {
                quantum_frame(quantum_op, quantum_data@)
            } else {
                rd_frame(rd_op, rd_data@)
            },
    {
        match self.variant {
            RaymarineVariant::Quantum => self.quantum_command(quantum_op, quantum_data),
            RaymarineVariant::RD => self.rd_command(rd_op, rd_data),
        }
    }

    /// The frames that apply `c` on this radar, in sending order.
    pub fn control_frames(&self, c: RaymarineControl) -> (r: Vec<Vec<u8>>)
        ensures
            r@.len() == control_frames(self.variant_spec(), c).len(),
            forall|i: int| 0 <= i < r@.len() ==> #[trigger] r@[i]@ == control_frames(self.variant_spec(), c)[i],
    {
        let q = self.variant == RaymarineVariant::Quantum;
        let mut out: Vec<Vec<u8>> = Vec::new();
        match c {
            RaymarineControl::Power { transmit } => {
                let v: u8 = if transmit { 1 } else { 0 };
                out.push(self.frame_for(0x0100, &[v, 0, 0, 0], 0x8001, &[v, 0, 0, 0]));
            },
            RaymarineControl::Range { index } => {
                out.push(self.frame_for(0x0101, &[0, index, 0, 0], 0x8101, &[1, 0, 0, 0, index, 0, 0, 0]));
            },
            RaymarineControl::Gain { value, auto } => {
                let a: u8 = if auto { 1 } else { 0 };
                if q {
                    out.push(self.quantum_command(0x0106, &[a, value, 0, 0]));
                } else {
                    out.push(self.rd_command(0x8301, &[1, 0, 0, 0, 0, 0, 0, 0, 1, 0, 0, 0, 0, 0, 0, 0, a, 0, 0, 0]));
                    if !auto {
                        out.push(self.rd_command(0x8301, &[1, 0, 0, 0, 0, 0, 0, 0, 1, 0, 0, 0, 0, 0, 0, 0, value, 0, 0, 0]));
                    }
                }
            },
            RaymarineControl::Sea { value, auto } => {
                let a: u8 = if auto { 1 } else { 0 };
                out.push(self.frame_for(0x0107, &[a, value, 0, 0], 0x8401, &[1, 0, 0, 0, 0, 0, 0, 0, a, 0, 0, 0, value, 0, 0, 0]));
            },
            RaymarineControl::Rain { value, enabled } => {
                let e: u8 = if enabled { 1 } else { 0 };
                out.push(self.frame_for(0x0108, &[e, value, 0, 0], 0x8501, &[1, 0, 0, 0, 0, 0, 0, 0, e, 0, 0, 0, value, 0, 0, 0]));
            },
            RaymarineControl::InterferenceRejection { level } => {
                out.push(self.frame_for(0x0109, &[level, 0, 0, 0], 0x8A01, &[1, 0, 0, 0, level, 0, 0, 0]));
            },
            RaymarineControl::TargetExpansion { level } => {
                out.push(self.frame_for(0x010A, &[level, 0, 0, 0], 0x8901, &[1, 0, 0, 0, level, 0, 0, 0]));
            },
            RaymarineControl::BearingAlignment { tenths } => {
                let w: u16 = if tenths < 0 { (tenths as i32 + 65536) as u16 } else { tenths as u16 };
                let b0 = (w % 256) as u8;
                let b1 = (w / 256) as u8;
                out.push(self.frame_for(0x010B, &[b0, b1, 0, 0], 0x8B01, &[1, 0, 0, 0, b0, b1, 0, 0]));
            },
            RaymarineControl::Ftc { value, enabled } => {
                if !q {
                    let e: u8 = if enabled { 1 } else { 0 };
                    out.push(self.rd_command(0x8601, &[1, 0, 0, 0, 0, 0, 0, 0, e, 0, 0, 0, value, 0, 0, 0]));
                }
            },
            RaymarineControl::Tune { value, auto } => {
                if !q {
                    let a: u8 = if auto { 1 } else { 0 };
                    out.push(self.rd_command(0x8701, &[1, 0, 0, 0, 0, 0, 0, 0, a, 0, 0, 0, value, 0, 0, 0]));
                }
            },
            RaymarineControl::Mode { mode } => {
                if q {
                    out.push(self.quantum_command(0x010C, &[mode, 0, 0, 0]));
                }
            },
            RaymarineControl::ColorGain { value, auto } => {
                if q {
                    let a: u8 = if auto { 1 } else { 0 };
                    out.push(self.quantum_command(0x010D, &[a, value, 0, 0]));
                }
            },
        }
        proof {
            let f = control_frames(self.variant, c);
            assert(out@.len() == f.len());
            assert forall|i: int| 0 <= i < out@.len() implies #[trigger] out@[i]@ == f[i] by {
                assert(out@[i]@ =~= f[i]);
            }
        }
        out
    }

    /// Sends the frames of `c`, in order.
    pub fn apply<I: IoProvider>(&mut self, io: &mut I, c: RaymarineControl)
        ensures
            *final(self) == *old(self),
    {
        let frames = self.control_frames(c);
        let mut i: usize = 0;
        while i < frames.len()
            invariant
                i <= frames@.len(),
            decreases frames@.len() - i,
        {
            self.send_command(io, frames[i].as_slice());
            i = i + 1;
        }
    }

    /// Transmit or standby.
    pub fn set_power<I: IoProvider>(&mut self, io: &mut I, transmit: bool)
        ensures
            *final(self) == *old(self),
    {
        self.apply(io, RaymarineControl::Power { transmit });
    }

    /// Range by index.
    pub fn set_range<I: IoProvider>(&mut self, io: &mut I, range_index: u8)
        ensures
            *final(self) == *old(self),
    {
        self.apply(io, RaymarineControl::Range { index: range_index });
    }

    /// Gain (0..=255) and auto flag.
    pub fn set_gain<I: IoProvider>(&mut self, io: &mut I, value: u8, auto: bool)
        ensures
            *final(self) == *old(self),
    {
        self.apply(io, RaymarineControl::Gain { value, auto });
    }

    /// Sea clutter (0..=255) and auto flag.
    pub fn set_sea<I: IoProvider>(&mut self, io: &mut I, value: u8, auto: bool)
        ensures
            *final(self) == *old(self),
    {
        self.apply(io, RaymarineControl::Sea { value, auto });
    }

    /// Rain clutter (0..=255) and on/off.
    pub fn set_rain<I: IoProvider>(&mut self, io: &mut I, value: u8, enabled: bool)
        ensures
            *final(self) == *old(self),
    {
        self.apply(io, RaymarineControl::Rain { value, enabled });
    }

    /// Interference rejection level (0..=3).
    pub fn set_interference_rejection<I: IoProvider>(&mut self, io: &mut I, level: u8)
        ensures
            *final(self) == *old(self),
    {
        self.apply(io, RaymarineControl::InterferenceRejection { level });
    }

    /// Target expansion level (0..=2).
    pub fn set_target_expansion<I: IoProvider>(&mut self, io: &mut I, level: u8)
        ensures
            *final(self) == *old(self),
    {
        self.apply(io, RaymarineControl::TargetExpansion { level });
    }

    /// Bearing alignment in tenths of a degree (-1800..=1800).
    pub fn set_bearing_alignment<I: IoProvider>(&mut self, io: &mut I, tenths: i16)
        ensures
            *final(self) == *old(self),
    {
        self.apply(io, RaymarineControl::BearingAlignment { tenths });
    }

    /// FTC (RD only).
    pub fn set_ftc<I: IoProvider>(&mut self, io: &mut I, value: u8, enabled: bool)
        ensures
            *final(self) == *old(self),
    {
        self.apply(io, RaymarineControl::Ftc { value, enabled });
    }

    /// Tune (RD only).
    pub fn set_tune<I: IoProvider>(&mut self, io: &mut I, value: u8, auto: bool)
        ensures
            *final(self) == *old(self),
    {
        self.apply(io, RaymarineControl::Tune { value, auto });
    }

    /// Operating mode (Quantum only).
    pub fn set_mode<I: IoProvider>(&mut self, io: &mut I, mode: u8)
        ensures
            *final(self) == *old(self),
    {
        self.apply(io, RaymarineControl::Mode { mode });
    }

    /// Color gain (Quantum only).
    pub fn set_color_gain<I: IoProvider>(&mut self, io: &mut I, value: u8, auto: bool)
        ensures
            *final(self) == *old(self),
    {
        self.apply(io, RaymarineControl::ColorGain { value, auto });
    }

    /// Closes both sockets and returns to `Disconnected`.
    pub fn shutdown<I: IoProvider>(&mut self, io: &mut I)
        ensures
            final(self).wf(),
            final(self).state_spec() == RaymarineControllerState::Disconnected,
            final(self).no_sockets(),
            final(self).variant_spec() == old(self).variant_spec(),
            final(self).endpoints() == old(self).endpoints(),
    {
        if let Some(socket) = self.command_socket.take() {
            io.udp_close(socket);
        }
        if let Some(socket) = self.report_socket.take() {
            io.udp_close(socket);
        }
        self.state = RaymarineControllerState::Disconnected;
    }
}

} // verus!
