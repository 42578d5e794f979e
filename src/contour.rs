//! Target contours for ARPA: the traced boundary of a radar return, and the
//! reasons a contour search can fail.
use vstd::prelude::*;

verus! {

/// Minimum contour length of a valid target.
pub const MIN_CONTOUR_LENGTH: i32 = 6;

/// Maximum contour length (stops runaway tracing on large blobs).
pub const MAX_CONTOUR_LENGTH: i32 = 2000;

/// A position in spoke units (angle) and pixels (radius).
#[derive(Debug, Clone, Copy, PartialEq, Eq, Structural)]
pub struct Polar {
    pub angle: i32,
    pub r: i32,
}

impl Default for Polar {
    fn default() -> (p: Polar)
        ensures
            p.angle == 0 && p.r == 0,
    {
        Polar { angle: 0, r: 0 }
    }
}

/// Why a contour search failed.
#[derive(Debug, Clone, Copy, PartialEq, Eq, Structural)]
pub enum ContourError {
    /// Range beyond the spoke length.
    RangeTooHigh,
    /// Range inside the main bang.
    RangeTooLow,
    /// No echo at the start position.
    NoEchoAtStart,
    /// The start point is not on the contour edge.
    StartPointNotOnContour,
    /// The contour could not be closed.
    BrokenContour,
    /// No contour at the search position.
    NoContourFound,
    /// Target already found in this scan.
    AlreadyFound,
    /// Target not found.
    NotFound,
    /// Contour too long (noise or interference).
    ContourTooLong,
    /// Target marked as lost.
    Lost,
    /// Weighted contour length check failed.
    WeightedContourLengthTooHigh,
    /// Waiting for the next refresh.
    WaitForRefresh,
}

pub open spec fn contour_error_text(e: ContourError) -> Seq<char> {
    match e {
        ContourError::RangeTooHigh => "Range too high"@,
        ContourError::RangeTooLow => "Range too low"@,
        ContourError::NoEchoAtStart => "No echo at start position"@,
        ContourError::StartPointNotOnContour => "Start point not on contour"@,
        ContourError::BrokenContour => "Broken contour"@,
        ContourError::NoContourFound => "No contour found"@,
        ContourError::AlreadyFound => "Target already found"@,
        ContourError::NotFound => "Target not found"@,
        ContourError::ContourTooLong => "Contour too long"@,
        ContourError::Lost => "Target lost"@,
        ContourError::WeightedContourLengthTooHigh => "Weighted contour length too high"@,
        ContourError::WaitForRefresh => "Waiting for refresh"@,
    }
}

impl ContourError {
    /// Human-readable description of the error.
    pub fn to_string(&self) -> (r: String)
        ensures
            r@ == contour_error_text(*self),
    {
        match self {
            ContourError::RangeTooHigh => String::from_str("Range too high"),
            ContourError::RangeTooLow => String::from_str("Range too low"),
            ContourError::NoEchoAtStart => String::from_str("No echo at start position"),
            ContourError::StartPointNotOnContour => String::from_str("Start point not on contour"),
            ContourError::BrokenContour => String::from_str("Broken contour"),
            ContourError::NoContourFound => String::from_str("No contour found"),
            ContourError::AlreadyFound => String::from_str("Target already found"),
            ContourError::NotFound => String::from_str("Target not found"),
            ContourError::ContourTooLong => String::from_str("Contour too long"),
            ContourError::Lost => String::from_str("Target lost"),
            ContourError::WeightedContourLengthTooHigh => String::from_str("Weighted contour length too high"),
            ContourError::WaitForRefresh => String::from_str("Waiting for refresh"),
        }
    }
}

/// The boundary of a detected return.
#[derive(Debug, Clone)]
pub struct Contour {
    /// Number of points on the contour.
    pub length: i32,
    /// Minimum angle in spoke units.
    pub min_angle: i32,
    /// Maximum angle in spoke units.
    pub max_angle: i32,
    /// Minimum radius in pixels.
    pub min_r: i32,
    /// Maximum radius in pixels.
    pub max_r: i32,
    /// Centre of the contour.
    pub position: Polar,
    /// Points along the edge.
    pub points: Vec<Polar>,
}

impl Default for Contour {
    fn default() -> (c: Contour)
        ensures
            c.length == 0 && c.min_angle == 0 && c.max_angle == 0 && c.min_r == 0 && c.max_r == 0,
            c.position == (Polar { angle: 0, r: 0 }),
            c.points@.len() == 0,
    {
        Contour::new()
    }
}

impl Contour {
    /// An empty contour: all bounds zero and no points.
    pub fn new() -> (c: Contour)
        ensures
            c.length == 0 && c.min_angle == 0 && c.max_angle == 0 && c.min_r == 0 && c.max_r == 0,
            c.position == (Polar { angle: 0, r: 0 }),
            c.points@.len() == 0,
    {
        Contour {
            length: 0,
            min_angle: 0,
            max_angle: 0,
            min_r: 0,
            max_r: 0,
            position: Polar::default(),
            points: Vec::new(),
        }
    }

    /// Angular width in spoke units.
    pub fn angular_width(&self) -> (w: i32)
        requires
            i32::MIN <= self.max_angle - self.min_angle <= i32::MAX,
        ensures
            w == self.max_angle - self.min_angle,
    {
        self.max_angle - self.min_angle
    }

    /// Radial extent in pixels.
    pub fn radial_extent(&self) -> (e: i32)
        requires
            i32::MIN <= self.max_r - self.min_r <= i32::MAX,
        ensures
            e == self.max_r - self.min_r,
    {
        self.max_r - self.min_r
    }

    /// Whether the length is within the target size bounds:
    /// `MIN_CONTOUR_LENGTH <= length < MAX_CONTOUR_LENGTH - 2`.
    pub fn is_valid(&self) -> (r: bool)
        ensures
            r == (MIN_CONTOUR_LENGTH <= self.length && self.length < MAX_CONTOUR_LENGTH - 2),
    {
        self.length >= MIN_CONTOUR_LENGTH && self.length < MAX_CONTOUR_LENGTH - 2
    }
}

} // verus!
