//! Furuno session commands: which frames set a control, the frames that open
//! a session, and the keep-alive. The frames are returned in sending order;
//! the caller writes them to the session's TCP stream.
use vstd::prelude::*;
use crate::furuno::{
    command_text, format_antenna_height_command, format_gain_command, format_keepalive,
    format_scan_speed_command, nearest_position, range_table, format_rain_command, format_range_command,
    format_request_picture_all, format_sea_command, format_status_command, gain_args,
    mode_char, rain_args, sea_args, CommandId, CommandMode,
};
use crate::furuno_controller::find_exact_range;
use crate::state::is_supported_range;
use crate::text::{commas_text, numeral, push_char, push_commas, push_numeral, same_text};

verus! {

/// Controls that have a Furuno session command.
#[derive(Debug, Clone, Copy, PartialEq, Eq, Structural)]
pub enum ControlType {
    Status,
    Gain,
    Sea,
    Rain,
    Range,
    NoTransmitStart1,
    NoTransmitEnd1,
    NoTransmitStart2,
    NoTransmitEnd2,
    ScanSpeed,
    AntennaHeight,
    /// Any control without a session command.
    Other,
}

/// Why a control request has no frames.
#[derive(Debug, Clone, Copy, PartialEq, Eq, Structural)]
pub enum CommandError {
    /// The control has no session command.
    CannotSetControlType(ControlType),
    /// The value is not valid for the control (a range that is not one of
    /// the radar's supported ranges).
    InvalidValue(ControlType),
}

/// `$`, mode, id in hex, `,arg` per argument, `commas` extra commas, then
/// `\r\n` (only `\n` when extra commas are present).
pub open spec fn frame_text(mode: CommandMode, id: u8, args: Seq<i32>, commas: nat) -> Seq<char> {
    seq!['$', mode_char(mode)] + numeral(id as nat, true) + commas_text(args) + Seq::new(commas, |i: int| ',')
        + if commas == 0 { seq!['\r', '\n'] } else { seq!['\n'] }
}

/// Formats a frame with a raw id and optional trailing commas.
pub fn send_with_commas(mode: CommandMode, id: u8, args: &[i32], commas: u32) -> (r: String)
    ensures
        r@ == frame_text(mode, id, args@, commas as nat),
{
    let mut message = String::new();
    push_char(&mut message, '$');
    push_char(&mut message, mode.as_char());
    push_numeral(&mut message, id as u32, true);
    push_commas(&mut message, args);
    let ghost base = message@;
    let mut i: u32 = 0;
    while i < commas
        invariant
            i <= commas,
            message@ == base + Seq::new(i as nat, |j: int| ','),
        decreases commas - i,
    {
        push_char(&mut message, ',');
        i = i + 1;
        assert(message@ =~= base + Seq::new(i as nat, |j: int| ','));
    }
    if commas == 0 {
        push_char(&mut message, '\r');
    }
    push_char(&mut message, '\n');
    assert(message@ =~= frame_text(mode, id, args@, commas as nat));
    message
}

/// A frame without trailing commas.
pub fn send(mode: CommandMode, id: u8, args: &[i32]) -> (r: String)
    ensures
        r@ == frame_text(mode, id, args@, 0),
{
    send_with_commas(mode, id, args, 0)
}

/// Whether `meters` is one of the radar's ranges and one of the ranges the
/// wire table has.
pub open spec fn range_ok(meters: i32, ranges: Seq<i32>) -> bool {
    ranges.contains(meters) && is_supported_range(meters as int)
}

/// The four no-transmit angles with one replaced.
pub open spec fn sector_args(control: ControlType, value: i32, current: Seq<i32>) -> Seq<i32> {
    match control {
        ControlType::NoTransmitStart1 => current.update(0, value),
        ControlType::NoTransmitEnd1 => current.update(1, value),
        ControlType::NoTransmitStart2 => current.update(2, value),
        _ => current.update(3, value),
    }
}

/// The frames that set `control` to `value`, followed by a request of all
/// picture settings. Status: 2 is transmit, otherwise standby; a range in
/// meters is sent as its wire index.
pub open spec fn control_frames(control: ControlType, value: i32, auto: bool, ranges: Seq<i32>, sectors: Seq<i32>) -> Seq<Seq<char>> {
    let tail = command_text(CommandMode::Request, CommandId::CustomPictureAll, seq![]);
    let first = match control {
        ControlType::Status => command_text(CommandMode::SetValue, CommandId::Status, seq![if value == 2 { 2i32 } else { 1i32 }, 0, 0, 60, 300, 0]),
        ControlType::Gain => command_text(CommandMode::SetValue, CommandId::Gain, gain_args(value, auto)),
        ControlType::Sea => command_text(CommandMode::SetValue, CommandId::Sea, sea_args(value, auto)),
        ControlType::Rain => command_text(CommandMode::SetValue, CommandId::Rain, rain_args(value, auto)),
        ControlType::Range => command_text(CommandMode::SetValue, CommandId::Range, seq![range_table()[nearest_position(value, 18)].0, 0, 0]),
        ControlType::ScanSpeed => command_text(CommandMode::SetValue, CommandId::ScanSpeed, seq![value, 0]),
        ControlType::AntennaHeight => command_text(CommandMode::SetValue, CommandId::AntennaHeight, seq![0, value, 0]),
        _ => frame_text(CommandMode::SetValue, 0x77, sector_args(control, value, sectors), 0),
    };
    seq![first, tail]
}

proof fn lemma_table_meters_supported_at(value: i32)
    requires
        exists|k: int| 0 <= k < 18 && #[trigger] range_table()[k].1 == value as int,
    ensures
        is_supported_range(value as int),
{
}

/// Session command state: the radar's range table in meters.
pub struct Command {
    ranges: Vec<i32>,
}

impl Command {
    pub closed spec fn ranges_spec(&self) -> Seq<i32> {
        self.ranges@
    }

    /// A command builder for a radar with the given ranges (meters, ascending).
    pub fn new(ranges: Vec<i32>) -> (c: Command)
        ensures
            c.ranges_spec() == ranges@,
    {
        Command { ranges }
    }

    /// Replaces the range table.
    pub fn set_ranges(&mut self, ranges: Vec<i32>)
        ensures
            final(self).ranges_spec() == ranges@,
    {
        self.ranges = ranges;
    }

    /// Whether `meters` is one of the radar's ranges.
    fn has_range(&self, meters: i32) -> (r: bool)
        ensures
            r == self.ranges@.contains(meters),
    {
        let mut i: usize = 0;
        while i < self.ranges.len()
            invariant
                i <= self.ranges@.len(),
                forall|k: int| 0 <= k < i ==> self.ranges@[k] != meters,
            decreases self.ranges@.len() - i,
        {
            if self.ranges[i] == meters {
                return true;
            }
            i = i + 1;
        }
        false
    }

    /// Frames that set `control`: gain, sea, rain, status, scan speed,
    /// antenna height and range through the codec's formatters (a range in
    /// meters, which must be one of the radar's ranges, by its wire index),
    /// no-transmit angles as one blind-sector frame holding all four angles
    /// (`sectors`: start 1, end 1, start 2, end 2 as currently set); then a
    /// request of all picture settings.
    pub fn set_control(&self, control: ControlType, value: i32, auto: bool, sectors: [i32; 4]) -> (r: Result<Vec<String>, CommandError>)
        ensures
            r is Err <==> (control == ControlType::Other || (control == ControlType::Range && !range_ok(value, self.ranges_spec()))),
            control == ControlType::Other ==> r == Err::<Vec<String>, CommandError>(CommandError::CannotSetControlType(control)),
            control == ControlType::Range && !range_ok(value, self.ranges_spec())
                ==> r == Err::<Vec<String>, CommandError>(CommandError::InvalidValue(control)),
            r is Ok ==> r->Ok_0@.len() == 2
                && r->Ok_0@[0]@ == control_frames(control, value, auto, self.ranges_spec(), sectors@)[0]
                && r->Ok_0@[1]@ == control_frames(control, value, auto, self.ranges_spec(), sectors@)[1],
    {
        let first: String = match control {
            ControlType::Status => format_status_command(value == 2),
            ControlType::Gain => format_gain_command(value, auto),
            ControlType::Sea => format_sea_command(value, auto),
            ControlType::Rain => format_rain_command(value, auto),
            ControlType::Range => {
                let index = if value >= 0 && self.has_range(value) {
                    find_exact_range(value as u32)
                } else {
                    None
                };
                match index {
                    Some(i) => {
                        proof {
                            lemma_table_meters_supported_at(value);
                        }
                        format_range_command(i)
                    },
                    None => {
                        proof {
                            if value >= 0 && self.ranges@.contains(value) && is_supported_range(value as int) {
                                let k = choose|k: int| 0 <= k < 18 && #[trigger] range_table()[k].1 == value as int;
                                assert(range_table()[k].1 == (value as u32) as int);
                            }
                        }
                        return Err(CommandError::InvalidValue(control));
                    },
                }
            },
            ControlType::ScanSpeed => format_scan_speed_command(value),
            ControlType::AntennaHeight => format_antenna_height_command(value),
            ControlType::NoTransmitStart1 => send(CommandMode::SetValue, 0x77, &[value, sectors[1], sectors[2], sectors[3]]),
            ControlType::NoTransmitEnd1 => send(CommandMode::SetValue, 0x77, &[sectors[0], value, sectors[2], sectors[3]]),
            ControlType::NoTransmitStart2 => send(CommandMode::SetValue, 0x77, &[sectors[0], sectors[1], value, sectors[3]]),
            ControlType::NoTransmitEnd2 => send(CommandMode::SetValue, 0x77, &[sectors[0], sectors[1], sectors[2], value]),
            ControlType::Other => {
                return Err(CommandError::CannotSetControlType(control));
            },
        };
        proof {
            let want = control_frames(control, value, auto, self.ranges_spec(), sectors@)[0];
            assert(sectors@.update(0, value) =~= seq![value, sectors@[1], sectors@[2], sectors@[3]]);
            assert(sectors@.update(1, value) =~= seq![sectors@[0], value, sectors@[2], sectors@[3]]);
            assert(sectors@.update(2, value) =~= seq![sectors@[0], sectors@[1], value, sectors@[3]]);
            assert(sectors@.update(3, value) =~= seq![sectors@[0], sectors@[1], sectors@[2], value]);
            assert(first@ =~= want);
        }
        let mut out: Vec<String> = Vec::new();
        out.push(first);
        out.push(format_request_picture_all());
        Ok(out)
    }

    /// Frames that open a session: connect, module information, range,
    /// picture settings, status, antenna type, blind sectors, main bang,
    /// antenna height, near / middle / far STC, operating time, wake-up count.
    pub fn init(&self) -> (r: Vec<String>)
        ensures
            r@.len() == 14,
            r@[0]@ == frame_text(CommandMode::Request, 0x60, seq![0i32], 0),
            r@[1]@ == frame_text(CommandMode::Request, 0x96, seq![], 7),
            r@[2]@ == frame_text(CommandMode::Request, 0x62, seq![0i32, 0, 0], 0),
            r@[13]@ == frame_text(CommandMode::Request, 0xAC, seq![0i32], 0),
    {
        let mut out: Vec<String> = Vec::new();
        let m = CommandMode::Request;
        let one_zero: [i32; 1] = [0];
        let no_args: [i32; 0] = [];
        let three_zeros: [i32; 3] = [0, 0, 0];
        assert(one_zero@ =~= seq![0i32]);
        assert(no_args@ =~= Seq::<i32>::empty());
        assert(three_zeros@ =~= seq![0i32, 0, 0]);
        out.push(send(m, 0x60, &one_zero));
        out.push(send_with_commas(m, 0x96, &no_args, 7));
        out.push(send(m, 0x62, &three_zeros));
        out.push(send(m, 0x66, &[]));
        out.push(send(m, 0x69, &[0, 0, 0, 0, 0, 0]));
        out.push(send(m, 0x6E, &[0, 0, 0, 0, 0, 0]));
        out.push(send(m, 0x77, &[0, 0, 0, 0, 0]));
        out.push(send(m, 0x83, &[0, 0]));
        out.push(send(m, 0x84, &[0, 0]));
        out.push(send(m, 0x85, &[0]));
        out.push(send(m, 0x86, &[0]));
        out.push(send(m, 0x87, &[0]));
        out.push(send(m, 0x8E, &[0, 0]));
        out.push(send(m, 0xAC, &one_zero));
        out
    }

    /// The periodic keep-alive frame.
    pub fn send_report_requests(&self) -> (r: String)
        ensures
            r@ == command_text(CommandMode::Request, CommandId::AliveCheck, seq![]),
    {
        format_keepalive()
    }
}

/// Furuno radar model.
#[derive(Debug, Clone, Copy, PartialEq, Eq, Structural)]
pub enum RadarModel {
    Unknown,
    FAR21x7,
    DRS,
    FAR14x7,
    DRS4DL,
    FAR3000,
    DRS4DNXT,
    DRS6ANXT,
    DRS6AXCLASS,
    FAR15x3,
    FAR14x6,
    DRS12ANXT,
    DRS25ANXT,
}

pub open spec fn model_text(m: RadarModel) -> Seq<char> {
    match m {
        RadarModel::Unknown => "Unknown"@,
        RadarModel::FAR21x7 => "FAR-21x7"@,
        RadarModel::DRS => "DRS"@,
        RadarModel::FAR14x7 => "FAR-14x7"@,
        RadarModel::DRS4DL => "DRS4DL"@,
        RadarModel::FAR3000 => "FAR-3000"@,
        RadarModel::DRS4DNXT => "DRS4D-NXT"@,
        RadarModel::DRS6ANXT => "DRS6A-NXT"@,
        RadarModel::DRS6AXCLASS => "DRS6A-XCLASS"@,
        RadarModel::FAR15x3 => "FAR-15x3"@,
        RadarModel::FAR14x6 => "FAR-14x6"@,
        RadarModel::DRS12ANXT => "DRS12A-NXT"@,
        RadarModel::DRS25ANXT => "DRS25A-NXT"@,
    }
}

pub open spec fn model_of_text(s: Seq<char>) -> RadarModel {
    if s == "DRS4D-NXT"@ { RadarModel::DRS4DNXT }
    else if s == "DRS6A-NXT"@ { RadarModel::DRS6ANXT }
    else if s == "DRS12A-NXT"@ { RadarModel::DRS12ANXT }
    else if s == "DRS25A-NXT"@ { RadarModel::DRS25ANXT }
    else if s == "DRS6A-XCLASS"@ { RadarModel::DRS6AXCLASS }
    else if s == "FAR-21x7"@ { RadarModel::FAR21x7 }
    else if s == "FAR-14x7"@ { RadarModel::FAR14x7 }
    else if s == "FAR-3000"@ { RadarModel::FAR3000 }
    else if s == "FAR-15x3"@ { RadarModel::FAR15x3 }
    else if s == "FAR-14x6"@ { RadarModel::FAR14x6 }
    else if s == "DRS4DL"@ { RadarModel::DRS4DL }
    else if s == "DRS"@ { RadarModel::DRS }
    else { RadarModel::Unknown }
}

impl RadarModel {
    /// The model's name as used in the model database.
    pub fn to_str(&self) -> (s: &'static str)
        ensures
            s@ == model_text(*self),
    {
        match self {
            RadarModel::Unknown => "Unknown",
            RadarModel::FAR21x7 => "FAR-21x7",
            RadarModel::DRS => "DRS",
            RadarModel::FAR14x7 => "FAR-14x7",
            RadarModel::DRS4DL => "DRS4DL",
            RadarModel::FAR3000 => "FAR-3000",
            RadarModel::DRS4DNXT => "DRS4D-NXT",
            RadarModel::DRS6ANXT => "DRS6A-NXT",
            RadarModel::DRS6AXCLASS => "DRS6A-XCLASS",
            RadarModel::FAR15x3 => "FAR-15x3",
            RadarModel::FAR14x6 => "FAR-14x6",
            RadarModel::DRS12ANXT => "DRS12A-NXT",
            RadarModel::DRS25ANXT => "DRS25A-NXT",
        }
    }
}

/// The model with this name, `Unknown` for any other name.
pub fn model_name_to_radar_model(name: &str) -> (m: RadarModel)
    ensures
        m == model_of_text(name@),
{
    if same_text(name, "DRS4D-NXT") { RadarModel::DRS4DNXT }
    else if same_text(name, "DRS6A-NXT") { RadarModel::DRS6ANXT }
    else if same_text(name, "DRS12A-NXT") { RadarModel::DRS12ANXT }
    else if same_text(name, "DRS25A-NXT") { RadarModel::DRS25ANXT }
    else if same_text(name, "DRS6A-XCLASS") { RadarModel::DRS6AXCLASS }
    else if same_text(name, "FAR-21x7") { RadarModel::FAR21x7 }
    else if same_text(name, "FAR-14x7") { RadarModel::FAR14x7 }
    else if same_text(name, "FAR-3000") { RadarModel::FAR3000 }
    else if same_text(name, "FAR-15x3") { RadarModel::FAR15x3 }
    else if same_text(name, "FAR-14x6") { RadarModel::FAR14x6 }
    else if same_text(name, "DRS4DL") { RadarModel::DRS4DL }
    else if same_text(name, "DRS") { RadarModel::DRS }
    else { RadarModel::Unknown }
}

/// Antenna height in meters from a stored setting: the old categories 0, 1
/// and 2 become 2, 5 and 15 m; other values are meters, clamped to 0..=100.
pub fn migrate_antenna_height(stored: i64) -> (meters: i32)
    ensures
        meters == (if stored == 0 { 2 } else if stored == 1 { 5 } else if stored == 2 { 15 }
            else if stored < 0 { 0 } else if stored > 100 { 100 } else { stored }),
{
    if stored == 0 {
        2
    } else if stored == 1 {
        5
    } else if stored == 2 {
        15
    } else if stored < 0 {
        0
    } else if stored > 100 {
        100
    } else {
        stored as i32
    }
}

} // verus!
