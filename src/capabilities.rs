//! Capability description types shared by all radars: hardware
//! characteristics, control classification, constraint kinds and the errors
//! of control operations.
use vstd::prelude::*;
use crate::text::push_str;

verus! {

/// Hardware characteristics of a radar model.
#[derive(Debug, Clone)]
pub struct Characteristics {
    /// Maximum detection range in meters.
    pub max_range: u32,
    /// Minimum detection range in meters.
    pub min_range: u32,
    /// Discrete ranges supported, in meters.
    pub supported_ranges: Vec<u32>,
    /// Spokes per antenna revolution.
    pub spokes_per_revolution: u16,
    /// Maximum spoke length in samples.
    pub max_spoke_length: u16,
    /// Whether Doppler processing is available.
    pub has_doppler: bool,
    /// Whether dual-range display is supported.
    pub has_dual_range: bool,
    /// Maximum range in dual-range mode (meters), 0 when unsupported.
    pub max_dual_range: u32,
    /// Number of no-transmit zones.
    pub no_transmit_zone_count: u8,
}

/// Whether a value is zero (such fields are left out when serialized).
pub fn is_zero(v: &u32) -> (r: bool)
    ensures
        r == (*v == 0),
{
    *v == 0
}

/// Whether a flag is false (such fields are left out when serialized).
pub fn is_false(b: &bool) -> (r: bool)
    ensures
        r == !*b,
{
    !*b
}

/// Control category.
#[derive(Debug, Clone, Copy, PartialEq, Eq, Structural)]
pub enum ControlCategory {
    /// Available on all radars.
    Base,
    /// Specific to some models.
    Extended,
    /// Installation / setup (antenna height, bearing alignment, ...).
    Installation,
}

/// Widget kind of a control.
#[derive(Debug, Clone, Copy, PartialEq, Eq, Structural)]
pub enum ControlType {
    Boolean,
    Number,
    Enum,
    Compound,
    String,
}

/// Kind of a cross-control constraint.
#[derive(Debug, Clone, Copy, PartialEq, Eq, Structural)]
pub enum ConstraintType {
    DisabledWhen,
    ReadOnlyWhen,
    RestrictedWhen,
}

/// Color of one display level in a PPI legend (`#RRGGBB`).
#[derive(Debug, Clone)]
pub struct LegendEntry {
    pub color: String,
}

/// A control that is currently disabled, and why.
#[derive(Debug, Clone)]
pub struct DisabledControl {
    pub control_id: String,
    pub reason: String,
}

/// Error of a control operation.
#[derive(Debug, Clone)]
pub enum ControlError {
    /// No radar with that id.
    RadarNotFound,
    /// The radar has no such control.
    ControlNotFound(String),
    /// The value is not valid for the control.
    InvalidValue(String),
    /// No controller (e.g. not connected).
    ControllerNotAvailable,
    /// The control is disabled.
    ControlDisabled(String),
}

pub open spec fn control_error_text(e: ControlError) -> Seq<char> {
    match e {
        ControlError::RadarNotFound => "Radar not found"@,
        ControlError::ControlNotFound(id) => "Control not found: "@ + id@,
        ControlError::InvalidValue(msg) => "Invalid value: "@ + msg@,
        ControlError::ControllerNotAvailable => "Controller not available"@,
        ControlError::ControlDisabled(reason) => "Control disabled: "@ + reason@,
    }
}

impl ControlError {
    /// Human-readable description of the error.
    pub fn to_string(&self) -> (r: String)
        ensures
            r@ == control_error_text(*self),
    {
        match self {
            ControlError::RadarNotFound => String::from_str("Radar not found"),
            ControlError::ControlNotFound(id) => {
                let mut s = String::from_str("Control not found: ");
                push_str(&mut s, id.as_str());
                s
            },
            ControlError::InvalidValue(msg) => {
                let mut s = String::from_str("Invalid value: ");
                push_str(&mut s, msg.as_str());
                s
            },
            ControlError::ControllerNotAvailable => String::from_str("Controller not available"),
            ControlError::ControlDisabled(reason) => {
                let mut s = String::from_str("Control disabled: ");
                push_str(&mut s, reason.as_str());
                s
            },
        }
    }
}

/// The shape of a compound control value (gain, sea, rain) in a request.
#[derive(Debug, Clone)]
pub enum CompoundValue {
    /// A bare number: a manual value.
    Number(u64),
    /// An object with optional `mode` and `value` members.
    Object { mode: Option<String>, value: Option<u64> },
    /// Anything else.
    Other,
}

/// Auto flag and optional value of a compound control request. A bare
/// number is a manual value; an object is automatic exactly when its mode is
/// `"auto"` (a missing mode is manual). Values are percentages: one above 100
/// is rejected as `InvalidValue`, never clamped.
pub fn parse_compound_control(v: &CompoundValue) -> (r: Result<(bool, Option<u8>), ControlError>)
    ensures
        match v {
            CompoundValue::Number(n) => if *n <= 100 {
                r == Ok::<(bool, Option<u8>), ControlError>((false, Some(*n as u8)))
            } else {
                r is Err && r->Err_0 is InvalidValue
            },
            CompoundValue::Object { mode, value } => match value {
                Some(x) if *x > 100 => r is Err && r->Err_0 is InvalidValue,
                _ => r == Ok::<(bool, Option<u8>), ControlError>((
                    match mode {
                        Some(m) => m@ == "auto"@,
                        None => false,
                    },
                    match value {
                        Some(x) => Some(*x as u8),
                        None => None,
                    },
                )),
            },
            CompoundValue::Other => r is Err && r->Err_0 is InvalidValue,
        },
{
    match v {
        CompoundValue::Number(n) => {
            if *n > 100 {
                return Err(ControlError::InvalidValue(String::from_str("value must be 0-100")));
            }
            Ok((false, Some(*n as u8)))
        },
        CompoundValue::Object { mode, value } => {
            let val = match value {
                Some(x) => {
                    if *x > 100 {
                        return Err(ControlError::InvalidValue(String::from_str("value must be 0-100")));
                    }
                    Some(*x as u8)
                },
                None => None,
            };
            let auto = match mode {
                Some(m) => crate::text::same_text(m.as_str(), "auto"),
                None => false,
            };
            Ok((auto, val))
        },
        CompoundValue::Other => Err(ControlError::InvalidValue(String::from_str("Expected number or {mode, value} object"))),
    }
}

} // verus!
