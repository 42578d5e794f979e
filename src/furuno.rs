//! Furuno wire codec: login exchange, ASCII command frames, the range-index
//! table and response parsing. Pure functions, no I/O.
//!
//! A command frame is `$` + mode letter + command id in upper-case hex, then
//! `,arg` for each base-10 argument, then `\r\n`.
use vstd::prelude::*;
use crate::text::{
    commas_text, find_char, lemma_commas_start, lemma_fields_round_trip,
    lemma_find_char_concat, lemma_hex_round_trip, lemma_numeral_digits, numeral, parse_fields_in,
    parse_fields_spec, parse_hex_u8_in, parse_hex_u8_spec, push_char, push_commas, push_numeral,
    trim, trim_bounds, find_char_in, chars_of, hex_value, is_space, trim_end, trim_start,
};

verus! {

/// TCP port of the login service; the session port is this plus the offset the
/// radar returns.
pub const BASE_PORT: u16 = 10000;

/// Port on which beacons are received and announces are sent.
pub const BEACON_PORT: u16 = 10010;

/// Command mode prefix of a frame.
#[derive(Debug, Clone, Copy, PartialEq, Eq, Structural)]
pub enum CommandMode {
    /// Set a value (`S`).
    SetValue,
    /// Request the current value (`R`).
    Request,
    /// New value / response (`N`).
    New,
}

pub open spec fn mode_char(m: CommandMode) -> char {
    match m {
        CommandMode::SetValue => 'S',
        CommandMode::Request => 'R',
        CommandMode::New => 'N',
    }
}

pub open spec fn mode_of_char(c: char) -> Option<CommandMode> {
    if c == 'S' {
        Some(CommandMode::SetValue)
    } else if c == 'R' {
        Some(CommandMode::Request)
    } else if c == 'N' {
        Some(CommandMode::New)
    } else {
        None
    }
}

impl CommandMode {
    /// The frame letter of this mode.
    pub fn as_char(self) -> (c: char)
        ensures
            c == mode_char(self),
    {
        match self {
            CommandMode::SetValue => 'S',
            CommandMode::Request => 'R',
            CommandMode::New => 'N',
        }
    }
}

/// Furuno command identifiers.
#[derive(Debug, Clone, Copy, PartialEq, Eq, Structural)]
pub enum CommandId {
    Connect,
    Range,
    Gain,
    Sea,
    Rain,
    CustomPictureAll,
    /// Signal processing (feature 0: interference rejection, 3: noise reduction).
    SignalProcessing,
    Status,
    BlindSector,
    HeadingAlign,
    MainBangSize,
    AntennaHeight,
    ScanSpeed,
    /// Operating time in seconds.
    OnTime,
    /// Module / firmware information.
    Modules,
    AliveCheck,
    TxChannel,
    BirdMode,
    RezBoost,
    TargetAnalyzer,
    AutoAcquire,
}

pub open spec fn id_value(id: CommandId) -> u8 {
    match id {
        CommandId::Connect => 0x60,
        CommandId::Range => 0x62,
        CommandId::Gain => 0x63,
        CommandId::Sea => 0x64,
        CommandId::Rain => 0x65,
        CommandId::CustomPictureAll => 0x66,
        CommandId::SignalProcessing => 0x67,
        CommandId::Status => 0x69,
        CommandId::BlindSector => 0x77,
        CommandId::HeadingAlign => 0x81,
        CommandId::MainBangSize => 0x83,
        CommandId::AntennaHeight => 0x84,
        CommandId::ScanSpeed => 0x89,
        CommandId::OnTime => 0x8E,
        CommandId::Modules => 0x96,
        CommandId::AliveCheck => 0xE3,
        CommandId::TxChannel => 0xEC,
        CommandId::BirdMode => 0xED,
        CommandId::RezBoost => 0xEE,
        CommandId::TargetAnalyzer => 0xEF,
        CommandId::AutoAcquire => 0xF0,
    }
}

impl CommandId {
    /// The numeric id carried in a frame.
    pub fn as_hex(self) -> (r: u8)
        ensures
            r == id_value(self),
    {
        match self {
            CommandId::Connect => 0x60,
            CommandId::Range => 0x62,
            CommandId::Gain => 0x63,
            CommandId::Sea => 0x64,
            CommandId::Rain => 0x65,
            CommandId::CustomPictureAll => 0x66,
            CommandId::SignalProcessing => 0x67,
            CommandId::Status => 0x69,
            CommandId::BlindSector => 0x77,
            CommandId::HeadingAlign => 0x81,
            CommandId::MainBangSize => 0x83,
            CommandId::AntennaHeight => 0x84,
            CommandId::ScanSpeed => 0x89,
            CommandId::OnTime => 0x8E,
            CommandId::Modules => 0x96,
            CommandId::AliveCheck => 0xE3,
            CommandId::TxChannel => 0xEC,
            CommandId::BirdMode => 0xED,
            CommandId::RezBoost => 0xEE,
            CommandId::TargetAnalyzer => 0xEF,
            CommandId::AutoAcquire => 0xF0,
        }
    }
}

// ---------------------------------------------------------------------------
// Login
// ---------------------------------------------------------------------------

/// The fixed 8-byte header of the radar's login reply.
pub open spec fn login_response_header() -> Seq<u8> {
    seq![0x09u8, 0x01u8, 0x00u8, 0x0cu8, 0x01u8, 0x00u8, 0x00u8, 0x00u8]
}

/// The session port announced by a login reply, if the reply is well formed.
pub open spec fn login_port_spec(data: Seq<u8>) -> Option<u16> {
    if data.len() >= 12 && data.subrange(0, 8) == login_response_header() {
        let port = BASE_PORT as int + (data[8] as int) * 256 + data[9] as int;
        if port <= u16::MAX {
            Some(port as u16)
        } else {
            None
        }
    } else {
        None
    }
}

/// The login request: a 12-byte header followed by the 44 characters
/// "COPYRIGHT (C) 2001 FURUNO ELECTRIC CO.,LTD. ".
pub open spec fn login_message_spec() -> Seq<u8> {
    seq![
        0x08u8, 0x01, 0x00, 0x38, 0x01, 0x00, 0x00, 0x00, 0x00, 0x01, 0x00, 0x00,
        0x43, 0x4f, 0x50, 0x59, 0x52, 0x49, 0x47, 0x48, 0x54, 0x20, 0x28, 0x43,
        0x29, 0x20, 0x32, 0x30, 0x30, 0x31, 0x20, 0x46, 0x55, 0x52, 0x55, 0x4e,
        0x4f, 0x20, 0x45, 0x4c, 0x45, 0x43, 0x54, 0x52, 0x49, 0x43, 0x20, 0x43,
        0x4f, 0x2e, 0x2c, 0x4c, 0x54, 0x44, 0x2e, 0x20,
    ]
}

/// The 56-byte login request sent to the login port.
pub fn login_message() -> (r: Vec<u8>)
    ensures
        r@ == login_message_spec(),
        r@.len() == 56,
{
    let r = vec![
        0x08u8, 0x01, 0x00, 0x38, 0x01, 0x00, 0x00, 0x00, 0x00, 0x01, 0x00, 0x00,
        0x43, 0x4f, 0x50, 0x59, 0x52, 0x49, 0x47, 0x48, 0x54, 0x20, 0x28, 0x43,
        0x29, 0x20, 0x32, 0x30, 0x30, 0x31, 0x20, 0x46, 0x55, 0x52, 0x55, 0x4e,
        0x4f, 0x20, 0x45, 0x4c, 0x45, 0x43, 0x54, 0x52, 0x49, 0x43, 0x20, 0x43,
        0x4f, 0x2e, 0x2c, 0x4c, 0x54, 0x44, 0x2e, 0x20,
    ];
    assert(r@ =~= login_message_spec());
    r
}

/// Session port from the radar's 12-byte login reply: bytes 0..8 must be the
/// fixed header, bytes 8..10 are a big-endian offset added to 10000. A reply
/// that is short, carries another header, or names a port beyond 65535 gives
/// `None`.
pub fn parse_login_response(data: &[u8]) -> (r: Option<u16>)
    ensures
        r == login_port_spec(data@),
{
    if data.len() < 12 {
        return None;
    }
    let header: [u8; 8] = [0x09, 0x01, 0x00, 0x0c, 0x01, 0x00, 0x00, 0x00];
    let mut i: usize = 0;
    while i < 8
        invariant
            i <= 8,
            data@.len() >= 12,
            header@ == login_response_header(),
            forall|j: int| 0 <= j < i ==> data@[j] == login_response_header()[j],
        decreases 8 - i,
    {
        if data[i] != header[i] {
            assert(data@.subrange(0, 8)[i as int] != login_response_header()[i as int]);
            return None;
        }
        i = i + 1;
    }
    assert(data@.subrange(0, 8) =~= login_response_header());
    let port: u32 = BASE_PORT as u32 + (data[8] as u32) * 256 + data[9] as u32;
    if port > 65535 {
        return None;
    }
    Some(port as u16)
}

// ---------------------------------------------------------------------------
// Command frames
// ---------------------------------------------------------------------------

/// Frame text without its `\r\n` terminator.
pub open spec fn frame_body(mode: CommandMode, id: CommandId, args: Seq<i32>) -> Seq<char> {
    seq!['$', mode_char(mode)] + numeral(id_value(id) as nat, true) + commas_text(args)
}

/// The full frame `${mode}{id:X},{arg},...\r\n`.
pub open spec fn command_text(mode: CommandMode, id: CommandId, args: Seq<i32>) -> Seq<char> {
    frame_body(mode, id, args) + seq!['\r', '\n']
}

/// Formats a command frame: `$`, the mode letter, the id in upper-case hex,
/// `,arg` for each argument in base 10, then `\r\n`.
pub fn format_command(mode: CommandMode, id: CommandId, args: &[i32]) -> (r: String)
    ensures
        r@ == command_text(mode, id, args@),
{
    let mut message = String::new();
    push_char(&mut message, '$');
    push_char(&mut message, mode.as_char());
    push_numeral(&mut message, id.as_hex() as u32, true);
    push_commas(&mut message, args);
    push_char(&mut message, '\r');
    push_char(&mut message, '\n');
    assert(message@ =~= command_text(mode, id, args@));
    message
}

pub open spec fn flag(b: bool) -> i32 {
    if b { 1 } else { 0 }
}

/// Power command: `$S69,{2 transmit | 1 standby},0,0,60,300,0`.
pub fn format_status_command(transmit: bool) -> (r: String)
    ensures
        r@ == command_text(CommandMode::SetValue, CommandId::Status, seq![if transmit { 2i32 } else { 1i32 }, 0, 0, 60, 300, 0]),
{
    let value: i32 = if transmit { 2 } else { 1 };
    let args: [i32; 6] = [value, 0, 0, 60, 300, 0];
    assert(args@ =~= seq![if transmit { 2i32 } else { 1i32 }, 0, 0, 60, 300, 0]);
    format_command(CommandMode::SetValue, CommandId::Status, &args)
}

/// Range command carrying the wire index: `$S62,{index},0,0`.
pub fn format_range_command(range_index: i32) -> (r: String)
    ensures
        r@ == command_text(CommandMode::SetValue, CommandId::Range, seq![range_index, 0, 0]),
{
    let args: [i32; 3] = [range_index, 0, 0];
    assert(args@ =~= seq![range_index, 0, 0]);
    format_command(CommandMode::SetValue, CommandId::Range, &args)
}

pub open spec fn gain_args(value: i32, auto: bool) -> Seq<i32> {
    seq![flag(auto), value, 0, 80, 0]
}

pub open spec fn sea_args(value: i32, auto: bool) -> Seq<i32> {
    seq![flag(auto), value, 50, 0, 0, 0]
}

pub open spec fn rain_args(value: i32, auto: bool) -> Seq<i32> {
    seq![flag(auto), value, 0, 0, 0, 0]
}

/// Gain command: `$S63,{auto},{value},0,80,0`.
pub fn format_gain_command(value: i32, auto: bool) -> (r: String)
    ensures
        r@ == command_text(CommandMode::SetValue, CommandId::Gain, gain_args(value, auto)),
{
    let a: i32 = if auto { 1 } else { 0 };
    let args: [i32; 5] = [a, value, 0, 80, 0];
    assert(args@ =~= gain_args(value, auto));
    format_command(CommandMode::SetValue, CommandId::Gain, &args)
}

/// Sea clutter command: `$S64,{auto},{value},50,0,0,0`.
pub fn format_sea_command(value: i32, auto: bool) -> (r: String)
    ensures
        r@ == command_text(CommandMode::SetValue, CommandId::Sea, sea_args(value, auto)),
{
    let a: i32 = if auto { 1 } else { 0 };
    let args: [i32; 6] = [a, value, 50, 0, 0, 0];
    assert(args@ =~= sea_args(value, auto));
    format_command(CommandMode::SetValue, CommandId::Sea, &args)
}

/// Rain clutter command: `$S65,{auto},{value},0,0,0,0`.
pub fn format_rain_command(value: i32, auto: bool) -> (r: String)
    ensures
        r@ == command_text(CommandMode::SetValue, CommandId::Rain, rain_args(value, auto)),
{
    let a: i32 = if auto { 1 } else { 0 };
    let args: [i32; 6] = [a, value, 0, 0, 0, 0];
    assert(args@ =~= rain_args(value, auto));
    format_command(CommandMode::SetValue, CommandId::Rain, &args)
}

/// Keep-alive, to be sent every 5 s: `$RE3`.
pub fn format_keepalive() -> (r: String)
    ensures
        r@ == command_text(CommandMode::Request, CommandId::AliveCheck, seq![]),
{
    let args: [i32; 0] = [];
    assert(args@ =~= Seq::<i32>::empty());
    format_command(CommandMode::Request, CommandId::AliveCheck, &args)
}

/// Request of all picture settings: `$R66`.
pub fn format_request_picture_all() -> (r: String)
    ensures
        r@ == command_text(CommandMode::Request, CommandId::CustomPictureAll, seq![]),
{
    let args: [i32; 0] = [];
    assert(args@ =~= Seq::<i32>::empty());
    format_command(CommandMode::Request, CommandId::CustomPictureAll, &args)
}

/// Request of module / firmware information: `$R96`.
pub fn format_request_modules() -> (r: String)
    ensures
        r@ == command_text(CommandMode::Request, CommandId::Modules, seq![]),
{
    let args: [i32; 0] = [];
    assert(args@ =~= Seq::<i32>::empty());
    format_command(CommandMode::Request, CommandId::Modules, &args)
}

/// Request of the operating time: `$R8E,0,0`.
pub fn format_request_ontime() -> (r: String)
    ensures
        r@ == command_text(CommandMode::Request, CommandId::OnTime, seq![0i32, 0]),
{
    let args: [i32; 2] = [0, 0];
    assert(args@ =~= seq![0i32, 0]);
    format_command(CommandMode::Request, CommandId::OnTime, &args)
}

/// Blind sector (no-transmit zone) command:
/// `$S77,{s2_enable},{s1_start},{s1_width},{s2_start},{s2_width}`.
pub fn format_blind_sector_command(s2_enable: bool, s1_start: i32, s1_width: i32, s2_start: i32, s2_width: i32) -> (r: String)
    ensures
        r@ == command_text(CommandMode::SetValue, CommandId::BlindSector, seq![flag(s2_enable), s1_start, s1_width, s2_start, s2_width]),
{
    let e: i32 = if s2_enable { 1 } else { 0 };
    let args: [i32; 5] = [e, s1_start, s1_width, s2_start, s2_width];
    assert(args@ =~= seq![flag(s2_enable), s1_start, s1_width, s2_start, s2_width]);
    format_command(CommandMode::SetValue, CommandId::BlindSector, &args)
}

/// Antenna revolution command (0 = 24 RPM, 2 = auto): `$S89,{mode},0`.
pub fn format_scan_speed_command(mode: i32) -> (r: String)
    ensures
        r@ == command_text(CommandMode::SetValue, CommandId::ScanSpeed, seq![mode, 0]),
{
    let args: [i32; 2] = [mode, 0];
    assert(args@ =~= seq![mode, 0]);
    format_command(CommandMode::SetValue, CommandId::ScanSpeed, &args)
}

/// Noise reduction (signal-processing feature 3): `$S67,0,3,{enabled},0`.
pub fn format_noise_reduction_command(enabled: bool) -> (r: String)
    ensures
        r@ == command_text(CommandMode::SetValue, CommandId::SignalProcessing, seq![0, 3, flag(enabled), 0]),
{
    let v: i32 = if enabled { 1 } else { 0 };
    let args: [i32; 4] = [0, 3, v, 0];
    assert(args@ =~= seq![0, 3, flag(enabled), 0]);
    format_command(CommandMode::SetValue, CommandId::SignalProcessing, &args)
}

/// Interference rejection (signal-processing feature 0; on is sent as 2):
/// `$S67,0,0,{2|0},0`.
pub fn format_interference_rejection_command(enabled: bool) -> (r: String)
    ensures
        r@ == command_text(CommandMode::SetValue, CommandId::SignalProcessing, seq![0, 0, if enabled { 2i32 } else { 0i32 }, 0]),
{
    let v: i32 = if enabled { 2 } else { 0 };
    let args: [i32; 4] = [0, 0, v, 0];
    assert(args@ =~= seq![0, 0, if enabled { 2i32 } else { 0i32 }, 0]);
    format_command(CommandMode::SetValue, CommandId::SignalProcessing, &args)
}

/// RezBoost (beam sharpening) level for a screen: `$SEE,{level},{screen}`.
pub fn format_rezboost_command(level: i32, screen: i32) -> (r: String)
    ensures
        r@ == command_text(CommandMode::SetValue, CommandId::RezBoost, seq![level, screen]),
{
    let args: [i32; 2] = [level, screen];
    assert(args@ =~= seq![level, screen]);
    format_command(CommandMode::SetValue, CommandId::RezBoost, &args)
}

/// Bird mode level for a screen: `$SED,{level},{screen}`.
pub fn format_bird_mode_command(level: i32, screen: i32) -> (r: String)
    ensures
        r@ == command_text(CommandMode::SetValue, CommandId::BirdMode, seq![level, screen]),
{
    let args: [i32; 2] = [level, screen];
    assert(args@ =~= seq![level, screen]);
    format_command(CommandMode::SetValue, CommandId::BirdMode, &args)
}

/// Target analyzer (Doppler) on/off with mode (0 target, 1 rain):
/// `$SEF,{enabled},{mode},{screen}`.
pub fn format_target_analyzer_command(enabled: bool, mode: i32, screen: i32) -> (r: String)
    ensures
        r@ == command_text(CommandMode::SetValue, CommandId::TargetAnalyzer, seq![flag(enabled), mode, screen]),
{
    let v: i32 = if enabled { 1 } else { 0 };
    let args: [i32; 3] = [v, mode, screen];
    assert(args@ =~= seq![flag(enabled), mode, screen]);
    format_command(CommandMode::SetValue, CommandId::TargetAnalyzer, &args)
}

/// Transmit channel (0 auto, 1..3): `$SEC,{channel}`.
pub fn format_tx_channel_command(channel: i32) -> (r: String)
    ensures
        r@ == command_text(CommandMode::SetValue, CommandId::TxChannel, seq![channel]),
{
    let args: [i32; 1] = [channel];
    assert(args@ =~= seq![channel]);
    format_command(CommandMode::SetValue, CommandId::TxChannel, &args)
}

/// Automatic acquisition by Doppler: `$SF0,{enabled}`.
pub fn format_auto_acquire_command(enabled: bool) -> (r: String)
    ensures
        r@ == command_text(CommandMode::SetValue, CommandId::AutoAcquire, seq![flag(enabled)]),
{
    let v: i32 = if enabled { 1 } else { 0 };
    let args: [i32; 1] = [v];
    assert(args@ =~= seq![flag(enabled)]);
    format_command(CommandMode::SetValue, CommandId::AutoAcquire, &args)
}

/// A 0..100 percentage scaled to 0..255 (truncating).
pub open spec fn main_bang_value(percent: i32) -> i32 {
    ((percent as int * 255) / 100) as i32
}

/// Main bang suppression, the percentage mapped to 0..255:
/// `$S83,{percent * 255 / 100},0`.
pub fn format_main_bang_command(percent: i32) -> (r: String)
    requires
        0 <= percent <= 100,
    ensures
        r@ == command_text(CommandMode::SetValue, CommandId::MainBangSize, seq![main_bang_value(percent), 0]),
{
    let value: i32 = (percent * 255) / 100;
    let args: [i32; 2] = [value, 0];
    assert(args@ =~= seq![main_bang_value(percent), 0]);
    format_command(CommandMode::SetValue, CommandId::MainBangSize, &args)
}

/// Heading alignment in tenths of a degree: `$S81,{degrees_x10},0`.
pub fn format_heading_align_command(degrees_x10: i32) -> (r: String)
    ensures
        r@ == command_text(CommandMode::SetValue, CommandId::HeadingAlign, seq![degrees_x10, 0]),
{
    let args: [i32; 2] = [degrees_x10, 0];
    assert(args@ =~= seq![degrees_x10, 0]);
    format_command(CommandMode::SetValue, CommandId::HeadingAlign, &args)
}

/// Antenna height in meters: `$S84,0,{meters},0`.
pub fn format_antenna_height_command(meters: i32) -> (r: String)
    ensures
        r@ == command_text(CommandMode::SetValue, CommandId::AntennaHeight, seq![0, meters, 0]),
{
    let args: [i32; 3] = [0, meters, 0];
    assert(args@ =~= seq![0, meters, 0]);
    format_command(CommandMode::SetValue, CommandId::AntennaHeight, &args)
}

/// Request of the power state: `$R69`.
pub fn format_request_status() -> (r: String)
    ensures
        r@ == command_text(CommandMode::Request, CommandId::Status, seq![]),
{
    let args: [i32; 0] = [];
    assert(args@ =~= Seq::<i32>::empty());
    format_command(CommandMode::Request, CommandId::Status, &args)
}

/// Request of the gain settings: `$R63`.
pub fn format_request_gain() -> (r: String)
    ensures
        r@ == command_text(CommandMode::Request, CommandId::Gain, seq![]),
{
    let args: [i32; 0] = [];
    assert(args@ =~= Seq::<i32>::empty());
    format_command(CommandMode::Request, CommandId::Gain, &args)
}

/// Request of the sea clutter settings: `$R64`.
pub fn format_request_sea() -> (r: String)
    ensures
        r@ == command_text(CommandMode::Request, CommandId::Sea, seq![]),
{
    let args: [i32; 0] = [];
    assert(args@ =~= Seq::<i32>::empty());
    format_command(CommandMode::Request, CommandId::Sea, &args)
}

/// Request of the rain clutter settings: `$R65`.
pub fn format_request_rain() -> (r: String)
    ensures
        r@ == command_text(CommandMode::Request, CommandId::Rain, seq![]),
{
    let args: [i32; 0] = [];
    assert(args@ =~= Seq::<i32>::empty());
    format_command(CommandMode::Request, CommandId::Rain, &args)
}

/// Request of the current range: `$R62`.
pub fn format_request_range() -> (r: String)
    ensures
        r@ == command_text(CommandMode::Request, CommandId::Range, seq![]),
{
    let args: [i32; 0] = [];
    assert(args@ =~= Seq::<i32>::empty());
    format_command(CommandMode::Request, CommandId::Range, &args)
}

// ---------------------------------------------------------------------------
// Range table
// ---------------------------------------------------------------------------

/// Wire index and meters of each supported range, shortest first. Wire
/// indices are not in order: 21 is the shortest range and 19 (66672 m) sits
/// between 14 and 15.
pub open spec fn range_table() -> Seq<(i32, i32)> {
    seq![
        (21i32, 116i32), (0, 231), (1, 463), (2, 926), (3, 1389), (4, 1852), (5, 2778),
        (6, 3704), (7, 5556), (8, 7408), (9, 11112), (10, 14816), (11, 22224), (12, 29632),
        (13, 44448), (14, 59264), (19, 66672), (15, 88896),
    ]
}

fn range_entry(k: usize) -> (r: (i32, i32))
    requires
        k < 18,
    ensures
        r == range_table()[k as int],
{
    match k {
        0 => (21, 116),
        1 => (0, 231),
        2 => (1, 463),
        3 => (2, 926),
        4 => (3, 1389),
        5 => (4, 1852),
        6 => (5, 2778),
        7 => (6, 3704),
        8 => (7, 5556),
        9 => (8, 7408),
        10 => (9, 11112),
        11 => (10, 14816),
        12 => (11, 22224),
        13 => (12, 29632),
        14 => (13, 44448),
        15 => (14, 59264),
        16 => (19, 66672),
        _ => (15, 88896),
    }
}

/// Meters of the first table entry (from position `k` on) with wire index `index`.
pub open spec fn lookup_meters_from(index: i32, k: int) -> Option<i32>
    decreases 18 - k,
{
    if k < 0 || k >= 18 {
        None
    } else if range_table()[k].0 == index {
        Some(range_table()[k].1)
    } else {
        lookup_meters_from(index, k + 1)
    }
}

/// Meters of the range with wire index `index`, if the table has one.
pub open spec fn index_to_meters_spec(index: i32) -> Option<i32> {
    lookup_meters_from(index, 0)
}

/// Distance from a table range to a requested range.
pub open spec fn range_distance(k: int, meters: i32) -> int {
    let d = range_table()[k].1 as int - meters as int;
    if d < 0 { -d } else { d }
}

/// Position of the first entry among the first `n` that is nearest to `meters`.
pub open spec fn nearest_position(meters: i32, n: int) -> int
    decreases n,
{
    if n <= 1 {
        0
    } else {
        let p = nearest_position(meters, n - 1);
        if range_distance(n - 1, meters) < range_distance(p, meters) {
            n - 1
        } else {
            p
        }
    }
}

/// Meters of the range with the given wire index (`None` for an index the
/// table lacks).
pub fn range_index_to_meters(index: i32) -> (r: Option<i32>)
    ensures
        r == index_to_meters_spec(index),
{
    let mut k: usize = 0;
    while k < 18
        invariant
            k <= 18,
            lookup_meters_from(index, 0) == lookup_meters_from(index, k as int),
        decreases 18 - k,
    {
        let (idx, m) = range_entry(k);
        if idx == index {
            return Some(m);
        }
        k = k + 1;
    }
    None
}

/// Wire index of the supported range nearest to `meters` (the shorter one on
/// a tie).
pub fn meters_to_range_index(meters: i32) -> (r: i32)
    ensures
        r == range_table()[nearest_position(meters, 18)].0,
{
    let mut best: usize = 0;
    let mut best_dist: i64 = {
        let d = 116i64 - meters as i64;
        if d < 0 { -d } else { d }
    };
    let mut k: usize = 1;
    while k < 18
        invariant
            1 <= k <= 18,
            best < 18,
            best as int == nearest_position(meters, k as int),
            best_dist as int == range_distance(best as int, meters),
        decreases 18 - k,
    {
        let (_, m) = range_entry(k);
        let d0 = m as i64 - meters as i64;
        let d = if d0 < 0 { -d0 } else { d0 };
        if d < best_dist {
            best = k;
            best_dist = d;
        }
        k = k + 1;
    }
    let (idx, _) = range_entry(best);
    idx
}

proof fn lemma_nearest_is_minimal(meters: i32, n: int)
    requires
        1 <= n <= 18,
    ensures
        0 <= nearest_position(meters, n) < n,
        forall|j: int| 0 <= j < n ==> range_distance(nearest_position(meters, n), meters) <= #[trigger] range_distance(j, meters),
    decreases n,
{
    if n > 1 {
        lemma_nearest_is_minimal(meters, n - 1);
    }
}

proof fn lemma_nearest_is_first(meters: i32, n: int)
    requires
        1 <= n <= 18,
    ensures
        forall|j: int| 0 <= j < nearest_position(meters, n) ==> range_distance(nearest_position(meters, n), meters)
            < #[trigger] range_distance(j, meters),
    decreases n,
{
    if n > 1 {
        lemma_nearest_is_first(meters, n - 1);
        lemma_nearest_is_minimal(meters, n - 1);
    }
}

/// The range chosen for a request never shrinks as the request grows, even
/// though wire index 19 is out of order.
pub proof fn lemma_range_monotone(m1: i32, m2: i32)
    requires
        m1 <= m2,
    ensures
        range_table()[nearest_position(m1, 18)].1 <= range_table()[nearest_position(m2, 18)].1,
{
    let k1 = nearest_position(m1, 18);
    let k2 = nearest_position(m2, 18);
    lemma_nearest_is_minimal(m1, 18);
    lemma_nearest_is_minimal(m2, 18);
    lemma_nearest_is_first(m1, 18);
    assert(forall|a: int, b: int| 0 <= a < b < 18 ==> range_table()[a].1 < range_table()[b].1);
    if range_table()[k1].1 > range_table()[k2].1 {
        assert(k2 < k1);
        assert(range_distance(k1, m1) < range_distance(k2, m1));
        assert(range_distance(k2, m2) <= range_distance(k1, m2));
    }
}

proof fn lemma_table_lookup(k: int)
    requires
        0 <= k < 18,
    ensures
        index_to_meters_spec(range_table()[k].0) == Some(range_table()[k].1),
{
    reveal_with_fuel(lookup_meters_from, 19);
}

/// Looking up the index chosen for any requested range gives back the
/// supported range nearest to the request; the table's ranges grow strictly
/// from entry to entry.
pub proof fn lemma_range_round_trip(meters: i32)
    ensures
        ({
            let k = nearest_position(meters, 18);
            &&& 0 <= k < 18
            &&& index_to_meters_spec(range_table()[k].0) == Some(range_table()[k].1)
            &&& forall|j: int| 0 <= j < 18 ==> range_distance(k, meters) <= #[trigger] range_distance(j, meters)
        }),
        forall|a: int, b: int| 0 <= a < b < 18 ==> range_table()[a].1 < range_table()[b].1,
{
    lemma_nearest_is_minimal(meters, 18);
    lemma_table_lookup(nearest_position(meters, 18));
}

// ---------------------------------------------------------------------------
// Response parsing
// ---------------------------------------------------------------------------

/// Mode, id and integer arguments of a frame line. The line is trimmed; it
/// must start with `$` and a mode letter; the id is the hex text up to the
/// first comma; the arguments are the comma-separated fields after it that
/// parse as `i32` (others, such as the empty field of a trailing comma, are
/// skipped).
pub open spec fn parse_response_spec(line: Seq<char>) -> Option<(CommandMode, u8, Seq<i32>)> {
    let t = trim(line);
    if t.len() >= 3 && t[0] == '$' && mode_of_char(t[1]) is Some {
        let rest = t.subrange(2, t.len() as int);
        let k = find_char(rest, ',');
        match parse_hex_u8_spec(rest.subrange(0, k)) {
            Some(id) => Some(
                (
                    mode_of_char(t[1])->Some_0,
                    id,
                    if k < rest.len() {
                        parse_fields_spec(rest.subrange(k + 1, rest.len() as int))
                    } else {
                        Seq::<i32>::empty()
                    },
                ),
            ),
            None => None,
        }
    } else {
        None
    }
}

/// Parses a frame line into its mode, command id and arguments; see
/// `parse_response_spec` for the accepted shape.
pub fn parse_response(line: &str) -> (r: Option<(CommandMode, u8, Vec<i32>)>)
    ensures
        match r {
            Some(t) => parse_response_spec(line@) == Some((t.0, t.1, t.2@)),
            None => parse_response_spec(line@) is None,
        },
{
    let v = chars_of(line);
    let (a, b) = trim_bounds(&v, 0, v.len());
    let ghost t = v@.subrange(a as int, b as int);
    assert(v@.subrange(0, v@.len() as int) =~= line@);
    if b - a < 3 || v[a] != '$' {
        return None;
    }
    let mode = match v[a + 1] {
        'S' => CommandMode::SetValue,
        'R' => CommandMode::Request,
        'N' => CommandMode::New,
        _ => {
            return None;
        },
    };
    assert(t[1] == v@[a + 1]);
    let k = find_char_in(&v, a + 2, b, ',');
    let ghost rest = t.subrange(2, t.len() as int);
    assert(rest =~= v@.subrange(a + 2, b as int));
    assert(rest.subrange(0, k - (a + 2)) =~= v@.subrange(a + 2, k as int));
    let id = match parse_hex_u8_in(&v, a + 2, k) {
        Some(id) => id,
        None => {
            return None;
        },
    };
    let args = if k < b {
        assert(rest.subrange(k - (a + 2) + 1, rest.len() as int) =~= v@.subrange(k + 1, b as int));
        parse_fields_in(&v, k + 1, b)
    } else {
        Vec::new()
    };
    Some((mode, id, args))
}

/// An auto/manual control setting as carried by gain, sea and rain frames.
#[derive(Debug, Clone, Copy, PartialEq, Eq, Structural)]
pub struct ControlValue {
    pub auto: bool,
    pub value: i32,
}

/// First argument of a `$N` frame with the given id, if it has one.
pub open spec fn first_arg_of(line: Seq<char>, id: CommandId) -> Option<i32> {
    match parse_response_spec(line) {
        Some((m, i, args)) => if m == CommandMode::New && i == id_value(id) && args.len() >= 1 {
            Some(args[0])
        } else {
            None
        },
        None => None,
    }
}

/// Auto flag (first argument equal to 1) and value (second argument) of a
/// `$N` frame with the given id, if it has both.
pub open spec fn control_value_of(line: Seq<char>, id: CommandId) -> Option<ControlValue> {
    match parse_response_spec(line) {
        Some((m, i, args)) => if m == CommandMode::New && i == id_value(id) && args.len() >= 2 {
            Some(ControlValue { auto: args[0] == 1, value: args[1] })
        } else {
            None
        },
        None => None,
    }
}

fn parse_first_arg(line: &str, id: CommandId) -> (r: Option<i32>)
    ensures
        r == first_arg_of(line@, id),
{
    match parse_response(line) {
        Some((mode, cmd_id, args)) => {
            if mode == CommandMode::New && cmd_id == id.as_hex() && args.len() >= 1 {
                Some(args[0])
            } else {
                None
            }
        },
        None => None,
    }
}

fn parse_control_value(line: &str, id: CommandId) -> (r: Option<ControlValue>)
    ensures
        r == control_value_of(line@, id),
{
    match parse_response(line) {
        Some((mode, cmd_id, args)) => {
            if mode == CommandMode::New && cmd_id == id.as_hex() && args.len() >= 2 {
                Some(ControlValue { auto: args[0] == 1, value: args[1] })
            } else {
                None
            }
        },
        None => None,
    }
}

/// Power state of a `$N69` status frame: `true` (transmit) when its first
/// argument is 2, `false` otherwise (1 is standby); `None` for any other frame.
pub fn parse_status_response(line: &str) -> (r: Option<bool>)
    ensures
        r == match first_arg_of(line@, CommandId::Status) {
            Some(v) => Some(v == 2),
            None => None,
        },
{
    match parse_first_arg(line, CommandId::Status) {
        Some(v) => Some(v == 2),
        None => None,
    }
}

/// Gain setting of a `$N63,{auto},{value},...` frame.
pub fn parse_gain_response(line: &str) -> (r: Option<ControlValue>)
    ensures
        r == control_value_of(line@, CommandId::Gain),
{
    parse_control_value(line, CommandId::Gain)
}

/// Sea clutter setting of a `$N64,{auto},{value},...` frame.
pub fn parse_sea_response(line: &str) -> (r: Option<ControlValue>)
    ensures
        r == control_value_of(line@, CommandId::Sea),
{
    parse_control_value(line, CommandId::Sea)
}

/// Rain clutter setting of a `$N65,{auto},{value},...` frame.
pub fn parse_rain_response(line: &str) -> (r: Option<ControlValue>)
    ensures
        r == control_value_of(line@, CommandId::Rain),
{
    parse_control_value(line, CommandId::Rain)
}

/// Wire range index of a `$N62,{index},...` frame.
pub fn parse_range_response(line: &str) -> (r: Option<i32>)
    ensures
        r == first_arg_of(line@, CommandId::Range),
{
    parse_first_arg(line, CommandId::Range)
}

// ---------------------------------------------------------------------------
// Round trips
// ---------------------------------------------------------------------------

/// Every frame the formatter writes parses back to its mode, id and
/// arguments.
pub proof fn lemma_parse_format(mode: CommandMode, id: CommandId, args: Seq<i32>)
    ensures
        parse_response_spec(command_text(mode, id, args)) == Some((mode, id_value(id), args)),
{
    let h = numeral(id_value(id) as nat, true);
    let c = commas_text(args);
    let body = frame_body(mode, id, args);
    let line = command_text(mode, id, args);
    lemma_numeral_digits(id_value(id) as nat, true);
    lemma_commas_start(args);
    assert(body =~= seq!['$', mode_char(mode)] + (h + c));
    // Trimming removes exactly the terminator.
    assert(trim_start(line) == line);
    assert(line.drop_last() =~= body + seq!['\r']);
    assert((body + seq!['\r']).drop_last() =~= body);
    assert(hex_value(h.last()) >= 0);
    assert(!is_space(body.last())) by {
        if args.len() == 0 {
            assert(c =~= Seq::<char>::empty());
            assert(body.last() == h.last());
        } else {
            assert(body.last() == c.last());
        }
    }
    assert(line.last() == '\n');
    assert(trim_end(line) == trim_end(body + seq!['\r']));
    assert((body + seq!['\r']).last() == '\r');
    assert(trim_end(body + seq!['\r']) == trim_end(body));
    assert(trim_end(body) == body);
    assert(trim(line) == body);
    // The id runs up to the first comma.
    let rest = body.subrange(2, body.len() as int);
    assert(rest =~= h + c);
    assert forall|i: int| 0 <= i < h.len() implies #[trigger] h[i] != ',' by {
        assert(hex_value(h[i]) >= 0);
    }
    lemma_find_char_concat(h, c, ',');
    assert(find_char(c, ',') == 0) by {
        if args.len() == 0 {
            assert(c =~= Seq::<char>::empty());
        }
    }
    let k = find_char(rest, ',');
    assert(k == h.len());
    assert(rest.subrange(0, k) =~= h);
    lemma_hex_round_trip(id_value(id));
    if args.len() > 0 {
        assert(rest.subrange(k + 1, rest.len() as int) =~= c.drop_first());
        lemma_fields_round_trip(args);
    } else {
        assert(c =~= Seq::<char>::empty());
        assert(k == rest.len());
    }
    assert(mode_of_char(mode_char(mode)) == Some(mode));
}

/// A gain, sea or rain response carrying the arguments that the matching
/// formatter writes parses back to the same setting.
pub proof fn lemma_control_round_trip(value: i32, auto: bool)
    ensures
        control_value_of(command_text(CommandMode::New, CommandId::Gain, gain_args(value, auto)), CommandId::Gain)
            == Some(ControlValue { auto, value }),
        control_value_of(command_text(CommandMode::New, CommandId::Sea, sea_args(value, auto)), CommandId::Sea)
            == Some(ControlValue { auto, value }),
        control_value_of(command_text(CommandMode::New, CommandId::Rain, rain_args(value, auto)), CommandId::Rain)
            == Some(ControlValue { auto, value }),
{
    lemma_parse_format(CommandMode::New, CommandId::Gain, gain_args(value, auto));
    lemma_parse_format(CommandMode::New, CommandId::Sea, sea_args(value, auto));
    lemma_parse_format(CommandMode::New, CommandId::Rain, rain_args(value, auto));
}

/// A status response carrying the arguments of the power command parses back
/// to the requested power state, and a range response to its wire index.
pub proof fn lemma_status_range_round_trip(transmit: bool, range_index: i32)
    ensures
        first_arg_of(
            command_text(CommandMode::New, CommandId::Status, seq![if transmit { 2i32 } else { 1i32 }, 0, 0, 60, 300, 0]),
            CommandId::Status,
        ) == Some(if transmit { 2i32 } else { 1i32 }),
        first_arg_of(command_text(CommandMode::New, CommandId::Range, seq![range_index, 0, 0]), CommandId::Range)
            == Some(range_index),
{
    lemma_parse_format(CommandMode::New, CommandId::Status, seq![if transmit { 2i32 } else { 1i32 }, 0, 0, 60, 300, 0]);
    lemma_parse_format(CommandMode::New, CommandId::Range, seq![range_index, 0, 0]);
}

} // verus!
