//! Live state of a radar, updated from the `$N` response frames it sends.
use vstd::prelude::*;
use crate::furuno::{
    command_text, control_value_of, first_arg_of, format_request_gain, format_request_rain,
    format_request_range, format_request_sea, format_request_status, index_to_meters_spec,
    parse_gain_response, parse_rain_response, parse_range_response, parse_sea_response,
    parse_status_response, range_index_to_meters, range_table, CommandId, CommandMode,
    ControlValue,
};

verus! {

/// Power state of the radar.
#[derive(Debug, Clone, Copy, PartialEq, Eq, Structural)]
pub enum PowerState {
    Off,
    Standby,
    Transmit,
    Warming,
}

impl Default for PowerState {
    fn default() -> (r: PowerState)
        ensures
            r == PowerState::Off,
    {
        PowerState::Off
    }
}

/// `"auto"` or `"manual"`.
pub open spec fn mode_text(auto: bool) -> Seq<char> {
    if auto { "auto"@ } else { "manual"@ }
}

/// A control's mode (`"auto"` or `"manual"`) and value, as reported to clients.
#[derive(Debug, Clone)]
pub struct ControlValueState {
    pub mode: String,
    pub value: i32,
}

impl Default for ControlValueState {
    fn default() -> (r: ControlValueState)
        ensures
            r.mode@ == mode_text(true),
            r.value == 50,
    {
        ControlValueState { mode: String::from_str("auto"), value: 50 }
    }
}

impl From<ControlValue> for ControlValueState {
    fn from(cv: ControlValue) -> (r: ControlValueState)
        ensures
            r.mode@ == mode_text(cv.auto),
            r.value == cv.value,
    {
        let mode = if cv.auto { String::from_str("auto") } else { String::from_str("manual") };
        ControlValueState { mode, value: cv.value }
    }
}

impl vstd::std_specs::convert::FromSpecImpl<ControlValue> for ControlValueState {
    open spec fn obeys_from_spec() -> bool {
        false
    }

    open spec fn from_spec(cv: ControlValue) -> ControlValueState {
        arbitrary()
    }
}

/// Whether `m` meters is one of the supported ranges.
pub open spec fn is_supported_range(m: int) -> bool {
    exists|k: int| 0 <= k < 18 && #[trigger] range_table()[k].1 == m
}

pub open spec fn percent_ok(v: i32) -> bool {
    0 <= v <= 100
}

/// Whether the control state after a frame is what the frame reports, or
/// the old state when the frame reports no acceptable value for it.
pub open spec fn control_after(new: ControlValueState, old: ControlValueState, cv: Option<ControlValue>) -> bool {
    match cv {
        Some(c) => if percent_ok(c.value) {
            new.mode@ == mode_text(c.auto) && new.value == c.value
        } else {
            new == old
        },
        None => new == old,
    }
}

/// Range in meters after a frame: the meters of a `$N62` frame's index when
/// the table has it, else the old range.
pub open spec fn range_after(old: u32, line: Seq<char>) -> u32 {
    match first_arg_of(line, CommandId::Range) {
        Some(i) => match index_to_meters_spec(i) {
            Some(m) => m as u32,
            None => old,
        },
        None => old,
    }
}

pub open spec fn power_after(old: PowerState, line: Seq<char>) -> PowerState {
    match first_arg_of(line, CommandId::Status) {
        Some(v) => if v == 2 { PowerState::Transmit } else { PowerState::Standby },
        None => old,
    }
}

/// Whether a frame changes the state: a status frame, a gain / sea / rain
/// frame with a value in 0..=100, or a range frame with a known index.
pub open spec fn response_accepted(line: Seq<char>) -> bool {
    first_arg_of(line, CommandId::Status) is Some
        || (control_value_of(line, CommandId::Gain) is Some && percent_ok(control_value_of(line, CommandId::Gain)->Some_0.value))
        || (control_value_of(line, CommandId::Sea) is Some && percent_ok(control_value_of(line, CommandId::Sea)->Some_0.value))
        || (control_value_of(line, CommandId::Rain) is Some && percent_ok(control_value_of(line, CommandId::Rain)->Some_0.value))
        || (first_arg_of(line, CommandId::Range) is Some && index_to_meters_spec(first_arg_of(line, CommandId::Range)->Some_0) is Some)
}

/// Current values of the readable controls of a radar.
#[derive(Debug, Clone)]
pub struct RadarState {
    /// Power state.
    pub power: PowerState,
    /// Range in meters (0 until the radar reports one).
    pub range: u32,
    /// Gain setting.
    pub gain: ControlValueState,
    /// Sea clutter setting.
    pub sea: ControlValueState,
    /// Rain clutter setting.
    pub rain: ControlValueState,
    /// Time of the last update in milliseconds since the epoch.
    pub timestamp: Option<u64>,
}

impl Default for RadarState {
    fn default() -> (r: RadarState)
        ensures
            r.power == PowerState::Off,
            r.range == 0,
            r.gain.mode@ == mode_text(true) && r.gain.value == 50,
            r.sea.mode@ == mode_text(true) && r.sea.value == 50,
            r.rain.mode@ == mode_text(true) && r.rain.value == 50,
            r.timestamp is None,
    {
        RadarState {
            power: PowerState::Off,
            range: 0,
            gain: ControlValueState::default(),
            sea: ControlValueState::default(),
            rain: ControlValueState::default(),
            timestamp: None,
        }
    }
}

impl RadarState {
    /// Gain, sea and rain values are percentages, and the range is unknown
    /// (0) or one of the supported ranges.
    pub open spec fn wf(&self) -> bool {
        &&& percent_ok(self.gain.value)
        &&& percent_ok(self.sea.value)
        &&& percent_ok(self.rain.value)
        &&& (self.range == 0 || is_supported_range(self.range as int))
    }

    /// The state before any report: powered off, range unknown, gain, sea and
    /// rain automatic at 50.
    pub fn new() -> (r: RadarState)
        ensures
            r.wf(),
            r.power == PowerState::Off,
            r.range == 0,
            r.gain.mode@ == mode_text(true) && r.gain.value == 50,
            r.sea.mode@ == mode_text(true) && r.sea.value == 50,
            r.rain.mode@ == mode_text(true) && r.rain.value == 50,
            r.timestamp is None,
    {
        RadarState::default()
    }

    /// Applies one response line. A status frame sets the power state
    /// (2 transmit, otherwise standby); a gain, sea or rain frame sets that
    /// control when its value is within 0..=100; a range frame sets the
    /// range to the meters of its index when the table has it. Returns
    /// whether the state changed; any other line leaves it as it was.
    pub fn update_from_response(&mut self, line: &str) -> (r: bool)
        ensures
            r == response_accepted(line@),
            final(self).power == power_after(old(self).power, line@),
            control_after(final(self).gain, old(self).gain, control_value_of(line@, CommandId::Gain)),
            control_after(final(self).sea, old(self).sea, control_value_of(line@, CommandId::Sea)),
            control_after(final(self).rain, old(self).rain, control_value_of(line@, CommandId::Rain)),
            final(self).range == range_after(old(self).range, line@),
            final(self).timestamp == old(self).timestamp,
            old(self).wf() ==> final(self).wf(),
    {
        if let Some(transmitting) = parse_status_response(line) {
            self.power = if transmitting { PowerState::Transmit } else { PowerState::Standby };
            return true;
        }
        if let Some(cv) = parse_gain_response(line) {
            if 0 <= cv.value && cv.value <= 100 {
                self.gain = ControlValueState::from(cv);
                return true;
            }
            return false;
        }
        if let Some(cv) = parse_sea_response(line) {
            if 0 <= cv.value && cv.value <= 100 {
                self.sea = ControlValueState::from(cv);
                return true;
            }
            return false;
        }
        if let Some(cv) = parse_rain_response(line) {
            if 0 <= cv.value && cv.value <= 100 {
                self.rain = ControlValueState::from(cv);
                return true;
            }
            return false;
        }
        if let Some(range_index) = parse_range_response(line) {
            if let Some(meters) = range_index_to_meters(range_index) {
                proof {
                    lemma_table_meters_supported(range_index);
                }
                self.range = meters as u32;
                return true;
            }
        }
        false
    }
}

proof fn lemma_lookup_from_supported(index: i32, k: int)
    requires
        0 <= k <= 18,
        crate::furuno::lookup_meters_from(index, k) is Some,
    ensures
        is_supported_range(crate::furuno::lookup_meters_from(index, k)->Some_0 as int),
        crate::furuno::lookup_meters_from(index, k)->Some_0 > 0,
    decreases 18 - k,
{
    if k < 18 && range_table()[k].0 != index {
        lemma_lookup_from_supported(index, k + 1);
    } else if k < 18 {
        assert(range_table()[k].1 == crate::furuno::lookup_meters_from(index, k)->Some_0);
    }
}

proof fn lemma_table_meters_supported(index: i32)
    requires
        index_to_meters_spec(index) is Some,
    ensures
        is_supported_range(index_to_meters_spec(index)->Some_0 as int),
        index_to_meters_spec(index)->Some_0 > 0,
{
    lemma_lookup_from_supported(index, 0);
}

/// A report that changes the range leaves it at one of the supported ranges.
pub proof fn lemma_range_change_supported(old_range: u32, line: Seq<char>)
    ensures
        range_after(old_range, line) != old_range ==> is_supported_range(range_after(old_range, line) as int),
{
    if let Some(i) = first_arg_of(line, CommandId::Range) {
        if index_to_meters_spec(i) is Some {
            lemma_table_meters_supported(i);
        }
    }
}

/// Requests for every readable control: status, range, gain, sea, rain.
pub fn generate_state_requests() -> (r: Vec<String>)
    ensures
        r@.len() == 5,
        r@[0]@ == command_text(CommandMode::Request, CommandId::Status, seq![]),
        r@[1]@ == command_text(CommandMode::Request, CommandId::Range, seq![]),
        r@[2]@ == command_text(CommandMode::Request, CommandId::Gain, seq![]),
        r@[3]@ == command_text(CommandMode::Request, CommandId::Sea, seq![]),
        r@[4]@ == command_text(CommandMode::Request, CommandId::Rain, seq![]),
{
    let mut r: Vec<String> = Vec::new();
    r.push(format_request_status());
    r.push(format_request_range());
    r.push(format_request_gain());
    r.push(format_request_sea());
    r.push(format_request_rain());
    r
}

} // verus!
