//! Doppler state machine for ARPA targets.
//!
//! Each target carries a `DopplerState` that restricts which history pixels
//! count as part of it. On every refresh the state moves according to the
//! approaching / receding pixel counts found inside the target's contour.
use vstd::prelude::*;

verus! {

/// Doppler state of a target; decides which pixels the target search accepts.
#[derive(Debug, Clone, Copy, PartialEq, Eq, Structural, Hash)]
pub enum DopplerState {
    /// Any pixel above threshold.
    Any,
    /// Above threshold with neither Doppler bit.
    NoDoppler,
    /// Doppler approaching pixels.
    Approaching,
    /// Doppler receding pixels.
    Receding,
    /// Either Doppler bit set.
    AnyDoppler,
    /// Above threshold and not receding.
    NotReceding,
    /// Above threshold and not approaching.
    NotApproaching,
    /// Pixels that carry the backup bit (target in the previous scan).
    AnyPlus,
}

/// More than 85 % of `total` (exact rational comparison).
pub open spec fn above_doppler_share(count: u32, total: u32) -> bool {
    100 * (count as int) > 85 * (total as int)
}

/// Fewer than 80 % of `total - other` (exact rational comparison).
pub open spec fn below_keep_share(count: u32, total: u32, other: u32) -> bool {
    5 * (count as int) < 4 * ((total as int) - (other as int))
}

/// The state that follows `s` for the given pixel counts.
pub open spec fn transition_spec(s: DopplerState, total: u32, approaching: u32, receding: u32) -> DopplerState {
    match s {
        DopplerState::Any | DopplerState::AnyDoppler => {
            if approaching > receding && above_doppler_share(approaching, total) {
                DopplerState::Approaching
            } else if receding > approaching && above_doppler_share(receding, total) {
                DopplerState::Receding
            } else {
                DopplerState::Any
            }
        },
        DopplerState::Receding => {
            if below_keep_share(receding, total, approaching) {
                DopplerState::Any
            } else {
                DopplerState::Receding
            }
        },
        DopplerState::Approaching => {
            if below_keep_share(approaching, total, receding) {
                DopplerState::Any
            } else {
                DopplerState::Approaching
            }
        },
        _ => s,
    }
}

/// Whether a pixel with the given flags belongs to a target in state `s`.
pub open spec fn matches_pixel_spec(
    s: DopplerState,
    is_target: bool,
    is_backup: bool,
    is_approaching: bool,
    is_receding: bool,
) -> bool {
    match s {
        DopplerState::Any => is_target,
        DopplerState::NoDoppler => is_target && !is_approaching && !is_receding,
        DopplerState::Approaching => is_approaching,
        DopplerState::Receding => is_receding,
        DopplerState::AnyDoppler => is_approaching || is_receding,
        DopplerState::NotReceding => is_target && !is_receding,
        DopplerState::NotApproaching => is_target && !is_approaching,
        DopplerState::AnyPlus => is_backup,
    }
}

impl Default for DopplerState {
    fn default() -> (r: DopplerState)
        ensures
            r == DopplerState::Any,
    {
        DopplerState::Any
    }
}

impl DopplerState {
    /// Next state from the pixel counts inside the target's contour.
    ///
    /// From `Any` / `AnyDoppler` the state becomes `Approaching` (or
    /// `Receding`) when that count beats the other and exceeds 85 % of the
    /// total; otherwise it is `Any`. `Approaching` falls back to `Any` when
    /// the approaching count is under 80 % of the pixels that are not
    /// receding, and `Receding` symmetrically. Other states stay.
    pub fn transition(&self, total_pix: u32, approaching_pix: u32, receding_pix: u32) -> (r: DopplerState)
        ensures
            r == transition_spec(*self, total_pix, approaching_pix, receding_pix),
    {
        let total = total_pix as u64;
        let a = approaching_pix as u64;
        let rc = receding_pix as u64;
        match self {
            DopplerState::AnyDoppler | DopplerState::Any => {
                if a > rc && 100 * a > 85 * total {
                    DopplerState::Approaching
                } else if rc > a && 100 * rc > 85 * total {
                    DopplerState::Receding
                } else {
                    DopplerState::Any
                }
            },
            DopplerState::Receding => {
                if 5 * rc + 4 * a < 4 * total {
                    DopplerState::Any
                } else {
                    DopplerState::Receding
                }
            },
            DopplerState::Approaching => {
                if 5 * a + 4 * rc < 4 * total {
                    DopplerState::Any
                } else {
                    DopplerState::Approaching
                }
            },
            _ => *self,
        }
    }

    /// Whether a history pixel with these flags matches this state.
    pub fn matches_pixel(&self, is_target: bool, is_backup: bool, is_approaching: bool, is_receding: bool) -> (r: bool)
        ensures
            r == matches_pixel_spec(*self, is_target, is_backup, is_approaching, is_receding),
    {
        match self {
            DopplerState::Any => is_target,
            DopplerState::NoDoppler => is_target && !is_approaching && !is_receding,
            DopplerState::Approaching => is_approaching,
            DopplerState::Receding => is_receding,
            DopplerState::AnyDoppler => is_approaching || is_receding,
            DopplerState::NotReceding => is_target && !is_receding,
            DopplerState::NotApproaching => is_target && !is_approaching,
            DopplerState::AnyPlus => is_backup,
        }
    }
}

/// A target in `Any` or `AnyDoppler` whose approaching pixels outnumber the
/// receding ones and exceed 85 % of all its pixels becomes `Approaching`;
/// symmetrically, one whose receding pixels dominate becomes `Receding`.
pub proof fn lemma_doppler_classifies(s: DopplerState, total: u32, approaching: u32, receding: u32)
    requires
        s == DopplerState::Any || s == DopplerState::AnyDoppler,
    ensures
        approaching > receding && above_doppler_share(approaching, total)
            ==> transition_spec(s, total, approaching, receding) == DopplerState::Approaching,
        receding > approaching && above_doppler_share(receding, total)
            ==> transition_spec(s, total, approaching, receding) == DopplerState::Receding,
{
}

} // verus!
