//! Navico control commands: the binary frames that set one control.
//!
//! A request names the control and carries its value in tenths (the API's
//! decimal value times ten, truncated), the auto and enabled flags, and for a
//! no-transmit sector the other end's angle as currently set.
use vstd::prelude::*;
use vstd::slice::slice_to_vec;
use crate::navico::Model;
use crate::text::same_text;

verus! {

/// A Navico control that has a wire command.
#[derive(Debug, Clone, Copy, PartialEq, Eq, Structural)]
pub enum NavicoControl {
    Power,
    Range,
    BearingAlignment,
    Gain,
    Sea,
    Rain,
    SidelobeSuppression,
    InterferenceRejection,
    TargetExpansion,
    TargetBoost,
    SeaState,
    /// Start angle of no-transmit sector 0..=3.
    NoTransmitStart(u8),
    /// End angle of no-transmit sector 0..=3.
    NoTransmitEnd(u8),
    LocalInterferenceRejection,
    ScanSpeed,
    Mode,
    NoiseRejection,
    TargetSeparation,
    DopplerMode,
    DopplerSpeed,
    AntennaHeight,
    AccentLight,
}

/// Why a control request has no frames.
#[derive(Debug, Clone, PartialEq, Eq)]
pub enum CommandError {
    /// The control has no wire command (a setting of this library only).
    CannotSetControlType(String),
    /// The value does not fit the control's wire field.
    ValueOutOfRange(String),
}

pub open spec fn control_of_id(id: Seq<char>) -> Option<NavicoControl> {
    if id == "power"@ { Some(NavicoControl::Power) }
    else if id == "range"@ { Some(NavicoControl::Range) }
    else if id == "bearingAlignment"@ { Some(NavicoControl::BearingAlignment) }
    else if id == "gain"@ { Some(NavicoControl::Gain) }
    else if id == "sea"@ { Some(NavicoControl::Sea) }
    else if id == "rain"@ { Some(NavicoControl::Rain) }
    else if id == "sidelobeSuppression"@ { Some(NavicoControl::SidelobeSuppression) }
    else if id == "interferenceRejection"@ { Some(NavicoControl::InterferenceRejection) }
    else if id == "targetExpansion"@ { Some(NavicoControl::TargetExpansion) }
    else if id == "targetBoost"@ { Some(NavicoControl::TargetBoost) }
    else if id == "seaState"@ { Some(NavicoControl::SeaState) }
    else if id == "noTransmitStart1"@ { Some(NavicoControl::NoTransmitStart(0)) }
    else if id == "noTransmitStart2"@ { Some(NavicoControl::NoTransmitStart(1)) }
    else if id == "noTransmitStart3"@ { Some(NavicoControl::NoTransmitStart(2)) }
    else if id == "noTransmitStart4"@ { Some(NavicoControl::NoTransmitStart(3)) }
    else if id == "noTransmitEnd1"@ { Some(NavicoControl::NoTransmitEnd(0)) }
    else if id == "noTransmitEnd2"@ { Some(NavicoControl::NoTransmitEnd(1)) }
    else if id == "noTransmitEnd3"@ { Some(NavicoControl::NoTransmitEnd(2)) }
    else if id == "noTransmitEnd4"@ { Some(NavicoControl::NoTransmitEnd(3)) }
    else if id == "localInterferenceRejection"@ { Some(NavicoControl::LocalInterferenceRejection) }
    else if id == "scanSpeed"@ { Some(NavicoControl::ScanSpeed) }
    else if id == "mode"@ { Some(NavicoControl::Mode) }
    else if id == "noiseRejection"@ { Some(NavicoControl::NoiseRejection) }
    else if id == "targetSeparation"@ { Some(NavicoControl::TargetSeparation) }
    else if id == "dopplerMode"@ { Some(NavicoControl::DopplerMode) }
    else if id == "dopplerSpeed"@ { Some(NavicoControl::DopplerSpeed) }
    else if id == "antennaHeight"@ { Some(NavicoControl::AntennaHeight) }
    else if id == "accentLight"@ { Some(NavicoControl::AccentLight) }
    else { None }
}

/// The control named by an API control id.
pub fn control_from_id(id: &str) -> (r: Option<NavicoControl>)
    ensures
        r == control_of_id(id@),
{
    if same_text(id, "power") { Some(NavicoControl::Power) }
    else if same_text(id, "range") { Some(NavicoControl::Range) }
    else if same_text(id, "bearingAlignment") { Some(NavicoControl::BearingAlignment) }
    else if same_text(id, "gain") { Some(NavicoControl::Gain) }
    else if same_text(id, "sea") { Some(NavicoControl::Sea) }
    else if same_text(id, "rain") { Some(NavicoControl::Rain) }
    else if same_text(id, "sidelobeSuppression") { Some(NavicoControl::SidelobeSuppression) }
    else if same_text(id, "interferenceRejection") { Some(NavicoControl::InterferenceRejection) }
    else if same_text(id, "targetExpansion") { Some(NavicoControl::TargetExpansion) }
    else if same_text(id, "targetBoost") { Some(NavicoControl::TargetBoost) }
    else if same_text(id, "seaState") { Some(NavicoControl::SeaState) }
    else if same_text(id, "noTransmitStart1") { Some(NavicoControl::NoTransmitStart(0)) }
    else if same_text(id, "noTransmitStart2") { Some(NavicoControl::NoTransmitStart(1)) }
    else if same_text(id, "noTransmitStart3") { Some(NavicoControl::NoTransmitStart(2)) }
    else if same_text(id, "noTransmitStart4") { Some(NavicoControl::NoTransmitStart(3)) }
    else if same_text(id, "noTransmitEnd1") { Some(NavicoControl::NoTransmitEnd(0)) }
    else if same_text(id, "noTransmitEnd2") { Some(NavicoControl::NoTransmitEnd(1)) }
    else if same_text(id, "noTransmitEnd3") { Some(NavicoControl::NoTransmitEnd(2)) }
    else if same_text(id, "noTransmitEnd4") { Some(NavicoControl::NoTransmitEnd(3)) }
    else if same_text(id, "localInterferenceRejection") { Some(NavicoControl::LocalInterferenceRejection) }
    else if same_text(id, "scanSpeed") { Some(NavicoControl::ScanSpeed) }
    else if same_text(id, "mode") { Some(NavicoControl::Mode) }
    else if same_text(id, "noiseRejection") { Some(NavicoControl::NoiseRejection) }
    else if same_text(id, "targetSeparation") { Some(NavicoControl::TargetSeparation) }
    else if same_text(id, "dopplerMode") { Some(NavicoControl::DopplerMode) }
    else if same_text(id, "dopplerSpeed") { Some(NavicoControl::DopplerSpeed) }
    else if same_text(id, "antennaHeight") { Some(NavicoControl::AntennaHeight) }
    else if same_text(id, "accentLight") { Some(NavicoControl::AccentLight) }
    else { None }
}

// ---------------------------------------------------------------------------
// Value conversions
// ---------------------------------------------------------------------------

/// The value as a byte: whole units, saturated to 0..=255.
pub open spec fn byte_value(tenths: i32) -> u8 {
    if tenths < 0 { 0 } else if tenths / 10 > 255 { 255 } else { (tenths / 10) as u8 }
}

/// A 0..100 value scaled to 0..=255 (truncated, saturated).
pub open spec fn scaled_byte(tenths: i32) -> u8 {
    if tenths <= 0 {
        0
    } else if (tenths as int * 255) / 1000 > 255 {
        255
    } else {
        ((tenths as int * 255) / 1000) as u8
    }
}

/// The value in whole units (truncated toward zero), saturated to -128..=127,
/// as an 8-bit two's-complement pattern.
pub open spec fn signed_byte(tenths: i32) -> u8 {
    let w = if tenths < 0 { -((-(tenths as int)) / 10) } else { tenths as int / 10 };
    let c = if w < -128 { -128 } else if w > 127 { 127 } else { w };
    (if c < 0 { c + 256 } else { c }) as u8
}

/// An angle in tenths of a degree brought into 0..3600.
pub open spec fn deci_degrees(tenths: i32) -> int {
    (tenths as int + 7200) % 3600
}

/// The low `n` bytes of `v`, little-endian.
pub open spec fn le_bytes(v: nat, n: nat) -> Seq<u8>
    decreases n,
{
    if n == 0 {
        Seq::<u8>::empty()
    } else {
        seq![(v % 256) as u8] + le_bytes(v / 256, (n - 1) as nat)
    }
}

/// The 32-bit two's-complement pattern of `v`.
pub open spec fn unsigned(v: i32) -> nat {
    (if v < 0 { v + 4294967296 } else { v as int }) as nat
}

pub open spec fn flag(b: bool) -> u8 {
    if b { 1 } else { 0 }
}

/// The angle of the other end of a sector, as currently set (0 when unset).
pub open spec fn paired_angle(paired: Option<i32>) -> int {
    match paired {
        Some(t) => deci_degrees(t),
        None => 0,
    }
}

pub open spec fn sector_frames(sector: u8, enabled: bool, start: int, end: int) -> Seq<Seq<u8>> {
    seq![
        seq![0x0Du8, 0xC1u8, sector, 0u8, 0u8, 0u8, flag(enabled)],
        seq![0xC0u8, 0xC1u8, sector, 0u8, 0u8, 0u8, flag(enabled)] + le_bytes(start as nat, 2) + le_bytes(end as nat, 2),
    ]
}

/// The frames, in sending order, that set `control` on a radar of `model`.
pub open spec fn control_frames_spec(
    model: Model,
    control: NavicoControl,
    tenths: i32,
    auto: bool,
    enabled: bool,
    paired: Option<i32>,
) -> Seq<Seq<u8>> {
    let b = byte_value(tenths);
    let halo = model == Model::HALO;
    match control {
        NavicoControl::Power => seq![
            seq![0x00u8, 0xC1u8, 0x01u8],
            seq![0x01u8, 0xC1u8, if tenths / 10 == 2 && tenths >= 0 { 1u8 } else { 0u8 }],
        ],
        NavicoControl::Range => seq![seq![0x03u8, 0xC1u8] + le_bytes(unsigned(tenths), 4)],
        NavicoControl::BearingAlignment => seq![seq![0x05u8, 0xC1u8] + le_bytes(deci_degrees(tenths) as nat, 2)],
        NavicoControl::Gain => seq![
            seq![0x06u8, 0xC1u8, 0u8, 0u8, 0u8, 0u8] + le_bytes(flag(auto) as nat, 4) + seq![scaled_byte(tenths)],
        ],
        NavicoControl::Sea => if halo {
            if !auto {
                seq![seq![0x11u8, 0xC1u8, 0x01u8, 0u8, 0u8, 0u8], seq![0x11u8, 0xC1u8, 0x00u8, b, b, 0x02u8]]
            } else {
                seq![
                    seq![0x11u8, 0xC1u8, 0x01u8, 0u8, 0u8, 0x01u8],
                    seq![0x11u8, 0xC1u8, 0x01u8, 0x00u8, signed_byte(tenths), 0x04u8],
                ]
            }
        } else {
            seq![
                seq![0x06u8, 0xC1u8, 0x02u8, 0u8, 0u8, 0u8, flag(auto), 0u8, 0u8, 0u8, scaled_byte(tenths)],
            ]
        },
        NavicoControl::Rain => seq![seq![0x06u8, 0xC1u8, 0x04u8, 0u8, 0u8, 0u8, 0u8, 0u8, 0u8, 0u8, scaled_byte(tenths)]],
        NavicoControl::SidelobeSuppression => seq![
            seq![0x06u8, 0xC1u8, 0x05u8, 0u8, 0u8, 0u8, flag(auto), 0u8, 0u8, 0u8, scaled_byte(tenths)],
        ],
        NavicoControl::InterferenceRejection => seq![seq![0x08u8, 0xC1u8, b]],
        NavicoControl::TargetExpansion => seq![seq![if halo { 0x12u8 } else { 0x09u8 }, 0xC1u8, b]],
        NavicoControl::TargetBoost => seq![seq![0x0Au8, 0xC1u8, b]],
        NavicoControl::SeaState => seq![seq![0x0Bu8, 0xC1u8, b]],
        NavicoControl::NoTransmitStart(s) => sector_frames(s, enabled, deci_degrees(tenths), paired_angle(paired)),
        NavicoControl::NoTransmitEnd(s) => sector_frames(s, enabled, paired_angle(paired), deci_degrees(tenths)),
        NavicoControl::LocalInterferenceRejection => seq![seq![0x0Eu8, 0xC1u8, b]],
        NavicoControl::ScanSpeed => seq![seq![0x0Fu8, 0xC1u8, b]],
        NavicoControl::Mode => seq![seq![0x10u8, 0xC1u8, b]],
        NavicoControl::NoiseRejection => seq![seq![0x21u8, 0xC1u8, b]],
        NavicoControl::TargetSeparation => seq![seq![0x22u8, 0xC1u8, b]],
        NavicoControl::DopplerMode => seq![seq![0x23u8, 0xC1u8, b]],
        NavicoControl::DopplerSpeed => seq![seq![0x24u8, 0xC1u8] + le_bytes(((tenths as int / 10) * 16) as nat, 2)],
        NavicoControl::AntennaHeight => seq![seq![0x30u8, 0xC1u8, 0x01u8, 0u8, 0u8, 0u8] + le_bytes(unsigned(tenths), 2) + seq![0u8, 0u8]],
        NavicoControl::AccentLight => seq![seq![0x31u8, 0xC1u8, b]],
    }
}

/// Whether the value fits the control's wire field. Only the Doppler speed
/// has a bound: it is sent in sixteenths in 16 bits, so at most 4095.
pub open spec fn value_fits(control: NavicoControl, tenths: i32) -> bool {
    control == NavicoControl::DopplerSpeed ==> 0 <= tenths && tenths / 10 <= 4095
}

// ---------------------------------------------------------------------------
// Executable conversions
// ---------------------------------------------------------------------------

fn byte_of(tenths: i32) -> (r: u8)
    ensures
        r == byte_value(tenths),
{
    if tenths < 0 {
        0
    } else if tenths / 10 > 255 {
        255
    } else {
        (tenths / 10) as u8
    }
}

fn scaled_byte_of(tenths: i32) -> (r: u8)
    ensures
        r == scaled_byte(tenths),
{
    if tenths <= 0 {
        0
    } else {
        let s: i64 = (tenths as i64 * 255) / 1000;
        if s > 255 { 255 } else { s as u8 }
    }
}

fn signed_byte_of(tenths: i32) -> (r: u8)
    ensures
        r == signed_byte(tenths),
{
    let w: i64 = if tenths < 0 { -((-(tenths as i64)) / 10) } else { tenths as i64 / 10 };
    let c: i64 = if w < -128 { -128 } else if w > 127 { 127 } else { w };
    (if c < 0 { c + 256 } else { c }) as u8
}

/// Tenths of a degree brought into 0..3600.
pub fn mod_deci_degrees(tenths: i32) -> (r: i32)
    ensures
        r == deci_degrees(tenths),
        0 <= r < 3600,
{
    // Adding a multiple of 3600 keeps the remainder and makes the sum positive.
    let a: i64 = tenths as i64 + 7200 + 2160000000;
    let r: i64 = a % 3600;
    assert(r == deci_degrees(tenths)) by (nonlinear_arith)
        requires
            a == tenths as int + 7200 + 3600 * 600000,
            r == a % 3600,
            a > 0,
    {
    }
    r as i32
}

/// Appends the low `n` bytes of `v`, little-endian.
fn push_le(out: &mut Vec<u8>, v: u64, n: usize)
    requires
        n <= 4,
    ensures
        final(out)@ == old(out)@ + le_bytes(v as nat, n as nat),
    decreases n,
{
    if n == 0 {
        assert(final(out)@ =~= old(out)@ + le_bytes(v as nat, 0));
        return;
    }
    out.push((v % 256) as u8);
    push_le(out, v / 256, n - 1);
    assert(final(out)@ =~= old(out)@ + le_bytes(v as nat, n as nat));
}

fn unsigned_of(v: i32) -> (r: u64)
    ensures
        r == unsigned(v),
{
    if v < 0 { (v as i64 + 4294967296) as u64 } else { v as u64 }
}

/// The two frames of a no-transmit sector: enable, then angles.
fn sector_frames_exec(sector: u8, enabled: bool, start: i32, end: i32) -> (r: Vec<Vec<u8>>)
    requires
        0 <= start < 3600,
        0 <= end < 3600,
    ensures
        r@.len() == 2,
        r@[0]@ == sector_frames(sector, enabled, start as int, end as int)[0],
        r@[1]@ == sector_frames(sector, enabled, start as int, end as int)[1],
{
    let e: u8 = if enabled { 1 } else { 0 };
    let mut r: Vec<Vec<u8>> = Vec::new();
    r.push(slice_to_vec(&[0x0Du8, 0xC1, sector, 0, 0, 0, e]));
    let mut second = slice_to_vec(&[0xC0u8, 0xC1, sector, 0, 0, 0, e]);
    push_le(&mut second, start as u64, 2);
    push_le(&mut second, end as u64, 2);
    r.push(second);
    assert(r@[0]@ =~= sector_frames(sector, enabled, start as int, end as int)[0]);
    assert(r@[1]@ =~= sector_frames(sector, enabled, start as int, end as int)[1]);
    r
}

fn one(frame: Vec<u8>) -> (r: Vec<Vec<u8>>)
    ensures
        r@.len() == 1,
        r@[0] == frame,
{
    let mut r: Vec<Vec<u8>> = Vec::new();
    r.push(frame);
    r
}

fn two(a: Vec<u8>, b: Vec<u8>) -> (r: Vec<Vec<u8>>)
    ensures
        r@.len() == 2,
        r@[0] == a,
        r@[1] == b,
{
    let mut r: Vec<Vec<u8>> = Vec::new();
    r.push(a);
    r.push(b);
    r
}

/// The frames, in sending order, that set the control named `id` on a radar
/// of `model` to `tenths` / 10 (power: 2 is transmit, anything else standby).
/// `paired` is the current angle, in tenths, of the other end of the sector a
/// no-transmit id names. An id without a wire command and a Doppler speed
/// above 4095 are errors.
pub fn set_control(
    model: Model,
    id: &str,
    tenths: i32,
    auto: bool,
    enabled: bool,
    paired: Option<i32>,
) -> (r: Result<Vec<Vec<u8>>, CommandError>)
    ensures
        match r {
            Ok(frames) => control_of_id(id@) is Some
                && value_fits(control_of_id(id@)->Some_0, tenths)
                && frames@.len() == control_frames_spec(model, control_of_id(id@)->Some_0, tenths, auto, enabled, paired).len()
                && forall|i: int| 0 <= i < frames@.len() ==> #[trigger] frames@[i]@
                    == control_frames_spec(model, control_of_id(id@)->Some_0, tenths, auto, enabled, paired)[i],
            Err(CommandError::CannotSetControlType(name)) => control_of_id(id@) is None && name@ == id@,
            Err(CommandError::ValueOutOfRange(name)) => control_of_id(id@) is Some
                && !value_fits(control_of_id(id@)->Some_0, tenths) && name@ == id@,
        },
{
    let control = match control_from_id(id) {
        Some(c) => c,
        None => {
            return Err(CommandError::CannotSetControlType(String::from_str(id)));
        },
    };
    if control == NavicoControl::DopplerSpeed && (tenths < 0 || tenths / 10 > 4095) {
        return Err(CommandError::ValueOutOfRange(String::from_str(id)));
    }
    let b = byte_of(tenths);
    let halo = model == Model::HALO;
    let ghost spec_frames = control_frames_spec(model, control, tenths, auto, enabled, paired);
    let frames: Vec<Vec<u8>> = match control {
        NavicoControl::Power => {
            let v: u8 = if tenths >= 0 && tenths / 10 == 2 { 1 } else { 0 };
            two(slice_to_vec(&[0x00u8, 0xC1, 0x01]), slice_to_vec(&[0x01u8, 0xC1, v]))
        },
        NavicoControl::Range => {
            let mut f = slice_to_vec(&[0x03u8, 0xC1]);
            push_le(&mut f, unsigned_of(tenths), 4);
            one(f)
        },
        NavicoControl::BearingAlignment => {
            let mut f = slice_to_vec(&[0x05u8, 0xC1]);
            push_le(&mut f, mod_deci_degrees(tenths) as u64, 2);
            one(f)
        },
        NavicoControl::Gain => {
            let a: u64 = if auto { 1 } else { 0 };
            let mut f = slice_to_vec(&[0x06u8, 0xC1, 0, 0, 0, 0]);
            push_le(&mut f, a, 4);
            f.push(scaled_byte_of(tenths));
            one(f)
        },
        NavicoControl::Sea => {
            if halo {
                if !auto {
                    two(slice_to_vec(&[0x11u8, 0xC1, 0x01, 0, 0, 0]), slice_to_vec(&[0x11u8, 0xC1, 0x00, b, b, 0x02]))
                } else {
                    two(
                        slice_to_vec(&[0x11u8, 0xC1, 0x01, 0, 0, 0x01]),
                        slice_to_vec(&[0x11u8, 0xC1, 0x01, 0x00, signed_byte_of(tenths), 0x04]),
                    )
                }
            } else {
                let a: u8 = if auto { 1 } else { 0 };
                one(slice_to_vec(&[0x06u8, 0xC1, 0x02, 0, 0, 0, a, 0, 0, 0, scaled_byte_of(tenths)]))
            }
        },
        NavicoControl::Rain => one(slice_to_vec(&[0x06u8, 0xC1, 0x04, 0, 0, 0, 0, 0, 0, 0, scaled_byte_of(tenths)])),
        NavicoControl::SidelobeSuppression => {
            let a: u8 = if auto { 1 } else { 0 };
            one(slice_to_vec(&[0x06u8, 0xC1, 0x05, 0, 0, 0, a, 0, 0, 0, scaled_byte_of(tenths)]))
        },
        NavicoControl::InterferenceRejection => one(slice_to_vec(&[0x08u8, 0xC1, b])),
        NavicoControl::TargetExpansion => {
            let op: u8 = if halo { 0x12 } else { 0x09 };
            one(slice_to_vec(&[op, 0xC1, b]))
        },
        NavicoControl::TargetBoost => one(slice_to_vec(&[0x0Au8, 0xC1, b])),
        NavicoControl::SeaState => one(slice_to_vec(&[0x0Bu8, 0xC1, b])),
        NavicoControl::NoTransmitStart(s) => {
            let other: i32 = match paired {
                Some(t) => mod_deci_degrees(t),
                None => 0,
            };
            sector_frames_exec(s, enabled, mod_deci_degrees(tenths), other)
        },
        NavicoControl::NoTransmitEnd(s) => {
            let other: i32 = match paired {
                Some(t) => mod_deci_degrees(t),
                None => 0,
            };
            sector_frames_exec(s, enabled, other, mod_deci_degrees(tenths))
        },
        NavicoControl::LocalInterferenceRejection => one(slice_to_vec(&[0x0Eu8, 0xC1, b])),
        NavicoControl::ScanSpeed => one(slice_to_vec(&[0x0Fu8, 0xC1, b])),
        NavicoControl::Mode => one(slice_to_vec(&[0x10u8, 0xC1, b])),
        NavicoControl::NoiseRejection => one(slice_to_vec(&[0x21u8, 0xC1, b])),
        NavicoControl::TargetSeparation => one(slice_to_vec(&[0x22u8, 0xC1, b])),
        NavicoControl::DopplerMode => one(slice_to_vec(&[0x23u8, 0xC1, b])),
        NavicoControl::DopplerSpeed => {
            let mut f = slice_to_vec(&[0x24u8, 0xC1]);
            push_le(&mut f, (tenths / 10) as u64 * 16, 2);
            one(f)
        },
        NavicoControl::AntennaHeight => {
            let mut f = slice_to_vec(&[0x30u8, 0xC1, 0x01, 0, 0, 0]);
            push_le(&mut f, unsigned_of(tenths), 2);
            f.push(0);
            f.push(0);
            one(f)
        },
        NavicoControl::AccentLight => one(slice_to_vec(&[0x31u8, 0xC1, b])),
    };
    proof {
        assert(frames@.len() == spec_frames.len());
        assert forall|i: int| 0 <= i < frames@.len() implies #[trigger] frames@[i]@ == spec_frames[i] by {
            assert(frames@[i]@ =~= spec_frames[i]);
        }
    }
    Ok(frames)
}

} // verus!
