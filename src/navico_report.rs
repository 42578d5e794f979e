//! What a Navico advanced-settings report (08) changes: the control values it
//! carries, filtered by model, and the Doppler mode.
use vstd::prelude::*;
use crate::navico::Model;

verus! {

/// Fields of an advanced-settings report.
#[derive(Debug, Clone, Copy, PartialEq, Eq, Structural)]
pub struct Report08 {
    pub sea_state: u8,
    pub local_interference_rejection: u8,
    pub scan_speed: u8,
    pub sidelobe_suppression_auto: bool,
    pub sidelobe_suppression: u8,
    pub noise_rejection: u8,
    pub target_separation: u8,
    pub sea_clutter: u8,
    pub auto_sea_clutter: i8,
    /// Present in the extended report of Doppler radars.
    pub doppler_state: Option<u8>,
    pub doppler_speed: Option<u16>,
}

/// Doppler display mode.
#[derive(Debug, Clone, Copy, PartialEq, Eq, Structural)]
pub enum DopplerMode {
    Off,
    Both,
    Approaching,
}

/// Controls a report-08 sets.
#[derive(Debug, Clone, Copy, PartialEq, Eq, Structural)]
pub enum ReportControl {
    DopplerMode,
    DopplerSpeed,
    SeaState,
    Sea,
    LocalInterferenceRejection,
    ScanSpeed,
    SidelobeSuppression,
    NoiseRejection,
    TargetSeparation,
}

/// One change a report brings.
#[derive(Debug, Clone, Copy, PartialEq, Eq, Structural)]
pub enum ReportUpdate {
    /// The Doppler mode now in effect.
    Doppler(DopplerMode),
    /// A control's value.
    Value { control: ReportControl, value: i32 },
    /// A control's value and auto flag.
    SetAuto { control: ReportControl, value: i32, auto: bool },
    /// A control's manual value and its auto offset.
    SetWithAutoValue { control: ReportControl, value: i32, auto_value: i32 },
}

/// Why a report is rejected.
#[derive(Debug, Clone, Copy, PartialEq, Eq, Structural)]
pub enum ReportError {
    UnknownDopplerState(u8),
}

pub open spec fn doppler_mode_of(v: u8) -> Option<DopplerMode> {
    if v == 0 {
        Some(DopplerMode::Off)
    } else if v == 1 {
        Some(DopplerMode::Both)
    } else if v == 2 {
        Some(DopplerMode::Approaching)
    } else {
        None
    }
}

/// The Doppler mode with this wire value (0 off, 1 both, 2 approaching).
pub fn doppler_mode_from(v: u8) -> (r: Option<DopplerMode>)
    ensures
        r == doppler_mode_of(v),
{
    if v == 0 {
        Some(DopplerMode::Off)
    } else if v == 1 {
        Some(DopplerMode::Both)
    } else if v == 2 {
        Some(DopplerMode::Approaching)
    } else {
        None
    }
}

/// The changes of a report-08, in order: Doppler mode, state and speed (when
/// the report has both); sea state and sea clutter (HALO only); local
/// interference rejection; scan speed; sidelobe suppression with its auto
/// flag; noise rejection; target separation (HALO and 4G only). An unknown
/// Doppler state rejects the report.
pub open spec fn report_08_spec(r: Report08, model: Model) -> Result<Seq<ReportUpdate>, ReportError> {
    let halo = model == Model::HALO;
    let common = seq![
        ReportUpdate::Value { control: ReportControl::LocalInterferenceRejection, value: r.local_interference_rejection as i32 },
        ReportUpdate::Value { control: ReportControl::ScanSpeed, value: r.scan_speed as i32 },
        ReportUpdate::SetAuto { control: ReportControl::SidelobeSuppression, value: r.sidelobe_suppression as i32, auto: r.sidelobe_suppression_auto },
        ReportUpdate::Value { control: ReportControl::NoiseRejection, value: r.noise_rejection as i32 },
    ];
    let sea = if halo {
        seq![
            ReportUpdate::Value { control: ReportControl::SeaState, value: r.sea_state as i32 },
            ReportUpdate::SetWithAutoValue { control: ReportControl::Sea, value: r.sea_clutter as i32, auto_value: r.auto_sea_clutter as i32 },
        ]
    } else {
        Seq::<ReportUpdate>::empty()
    };
    let separation = if halo || model == Model::Gen4 {
        seq![ReportUpdate::Value { control: ReportControl::TargetSeparation, value: r.target_separation as i32 }]
    } else {
        Seq::<ReportUpdate>::empty()
    };
    match (r.doppler_state, r.doppler_speed) {
        (Some(ds), Some(sp)) => match doppler_mode_of(ds) {
            Some(mode) => Ok(seq![
                ReportUpdate::Doppler(mode),
                ReportUpdate::Value { control: ReportControl::DopplerMode, value: ds as i32 },
                ReportUpdate::Value { control: ReportControl::DopplerSpeed, value: sp as i32 },
            ] + sea + common + separation),
            None => Err(ReportError::UnknownDopplerState(ds)),
        },
        _ => Ok(sea + common + separation),
    }
}

/// The changes a report-08 brings to a radar of `model`.
pub fn report_08_updates(r: &Report08, model: Model) -> (out: Result<Vec<ReportUpdate>, ReportError>)
    ensures
        match out {
            Ok(v) => report_08_spec(*r, model) == Ok::<Seq<ReportUpdate>, ReportError>(v@),
            Err(e) => report_08_spec(*r, model) == Err::<Seq<ReportUpdate>, ReportError>(e),
        },
{
    let mut v: Vec<ReportUpdate> = Vec::new();
    match (r.doppler_state, r.doppler_speed) {
        (Some(ds), Some(sp)) => match doppler_mode_from(ds) {
            Some(mode) => {
                v.push(ReportUpdate::Doppler(mode));
                v.push(ReportUpdate::Value { control: ReportControl::DopplerMode, value: ds as i32 });
                v.push(ReportUpdate::Value { control: ReportControl::DopplerSpeed, value: sp as i32 });
            },
            None => {
                return Err(ReportError::UnknownDopplerState(ds));
            },
        },
        _ => {},
    }
    if model == Model::HALO {
        v.push(ReportUpdate::Value { control: ReportControl::SeaState, value: r.sea_state as i32 });
        v.push(ReportUpdate::SetWithAutoValue { control: ReportControl::Sea, value: r.sea_clutter as i32, auto_value: r.auto_sea_clutter as i32 });
    }
    v.push(ReportUpdate::Value { control: ReportControl::LocalInterferenceRejection, value: r.local_interference_rejection as i32 });
    v.push(ReportUpdate::Value { control: ReportControl::ScanSpeed, value: r.scan_speed as i32 });
    v.push(ReportUpdate::SetAuto { control: ReportControl::SidelobeSuppression, value: r.sidelobe_suppression as i32, auto: r.sidelobe_suppression_auto });
    v.push(ReportUpdate::Value { control: ReportControl::NoiseRejection, value: r.noise_rejection as i32 });
    if model == Model::HALO || model == Model::Gen4 {
        v.push(ReportUpdate::Value { control: ReportControl::TargetSeparation, value: r.target_separation as i32 });
    }
    proof {
        match report_08_spec(*r, model) {
            Ok(s) => {
                assert(v@ =~= s);
            },
            Err(_) => {},
        }
    }
    Ok(v)
}

} // verus!
