use mayara::contour::{Contour, ContourError, MAX_CONTOUR_LENGTH, MIN_CONTOUR_LENGTH};
use mayara::doppler::DopplerState;

#[test]
fn test_contour_new() {
    let contour = Contour::new();
    assert_eq!(contour.length, 0);
    assert!(contour.points.is_empty());
}

#[test]
fn test_contour_dimensions() {
    let mut contour = Contour::new();
    contour.min_angle = 100;
    contour.max_angle = 150;
    contour.min_r = 50;
    contour.max_r = 80;

    assert_eq!(contour.angular_width(), 50);
    assert_eq!(contour.radial_extent(), 30);
}

#[test]
fn test_contour_validity() {
    let mut contour = Contour::new();
    contour.length = 0;
    assert!(!contour.is_valid());

    contour.length = 10;
    assert!(contour.is_valid());

    contour.length = MAX_CONTOUR_LENGTH as i32;
    assert!(!contour.is_valid());
}

#[test]
fn test_contour_error_display() {
    assert_eq!(ContourError::NoContourFound.to_string(), "No contour found");
    assert_eq!(ContourError::Lost.to_string(), "Target lost");
}

#[test]
fn contour_validity_bounds() {
    let mut contour = Contour::default();
    contour.length = MIN_CONTOUR_LENGTH - 1;
    assert!(!contour.is_valid());
    contour.length = MIN_CONTOUR_LENGTH;
    assert!(contour.is_valid());
    contour.length = MAX_CONTOUR_LENGTH - 3;
    assert!(contour.is_valid());
    contour.length = MAX_CONTOUR_LENGTH - 2;
    assert!(!contour.is_valid());
}

#[test]
fn contour_error_messages() {
    assert_eq!(ContourError::RangeTooHigh.to_string(), "Range too high");
    assert_eq!(ContourError::WeightedContourLengthTooHigh.to_string(), "Weighted contour length too high");
    assert_eq!(ContourError::WaitForRefresh.to_string(), "Waiting for refresh");
}

#[test]
fn test_transition_to_approaching() {
    let state = DopplerState::Any;
    let new_state = state.transition(100, 90, 5);
    assert_eq!(new_state, DopplerState::Approaching);
}

#[test]
fn test_transition_to_receding() {
    let state = DopplerState::AnyDoppler;
    let new_state = state.transition(100, 5, 90);
    assert_eq!(new_state, DopplerState::Receding);
}

#[test]
fn test_no_transition_mixed() {
    let state = DopplerState::Any;
    let new_state = state.transition(100, 40, 40);
    assert_eq!(new_state, DopplerState::Any);
}

#[test]
fn test_receding_falls_back_to_any() {
    let state = DopplerState::Receding;
    let new_state = state.transition(100, 5, 10);
    assert_eq!(new_state, DopplerState::Any);
}

#[test]
fn test_matches_pixel() {
    assert!(DopplerState::Any.matches_pixel(true, true, false, false));
    assert!(!DopplerState::Any.matches_pixel(false, true, false, false));

    assert!(DopplerState::Approaching.matches_pixel(true, true, true, false));
    assert!(!DopplerState::Approaching.matches_pixel(true, true, false, true));

    assert!(DopplerState::AnyDoppler.matches_pixel(true, true, true, false));
    assert!(DopplerState::AnyDoppler.matches_pixel(true, true, false, true));
    assert!(!DopplerState::AnyDoppler.matches_pixel(true, true, false, false));
}

#[test]
fn doppler_share_is_strictly_above_85_percent() {
    // 85 of 100 is not more than 85 %.
    assert_eq!(DopplerState::Any.transition(100, 85, 0), DopplerState::Any);
    assert_eq!(DopplerState::Any.transition(100, 86, 0), DopplerState::Approaching);
    assert_eq!(DopplerState::AnyDoppler.transition(100, 40, 40), DopplerState::Any);
}

#[test]
fn doppler_keeps_state_with_enough_pixels() {
    // 80 % of (100 - 5) is 76: 76 approaching pixels keep the state.
    assert_eq!(DopplerState::Approaching.transition(100, 76, 5), DopplerState::Approaching);
    assert_eq!(DopplerState::Approaching.transition(100, 75, 5), DopplerState::Any);
    assert_eq!(DopplerState::Receding.transition(100, 5, 76), DopplerState::Receding);
}

#[test]
fn doppler_other_states_stay() {
    for s in [DopplerState::NoDoppler, DopplerState::NotReceding, DopplerState::NotApproaching, DopplerState::AnyPlus] {
        assert_eq!(s.transition(100, 100, 0), s);
    }
    assert_eq!(DopplerState::default(), DopplerState::Any);
}

#[test]
fn doppler_pixel_table() {
    assert!(DopplerState::NoDoppler.matches_pixel(true, false, false, false));
    assert!(!DopplerState::NoDoppler.matches_pixel(true, false, true, false));
    assert!(DopplerState::NotReceding.matches_pixel(true, false, true, false));
    assert!(!DopplerState::NotReceding.matches_pixel(true, false, false, true));
    assert!(DopplerState::NotApproaching.matches_pixel(true, false, false, true));
    assert!(!DopplerState::NotApproaching.matches_pixel(true, false, true, false));
    assert!(DopplerState::AnyPlus.matches_pixel(false, true, false, false));
    assert!(!DopplerState::AnyPlus.matches_pixel(true, false, false, false));
}
