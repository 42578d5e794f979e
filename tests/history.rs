use mayara::doppler::DopplerState;
use mayara::history::{pixel_matches, HistoryBuffer};

#[test]
fn history_bits_and_backup() {
    let mut h = HistoryBuffer::new(4, 3);
    // Threshold 8; 14 marks approaching, 15 receding.
    assert!(h.update_spoke(1, &[9, 14, 2], 100, 8, 14, 15));
    assert_eq!(h.pixel(1, 0), 0b0001);
    assert_eq!(h.pixel(1, 1), 0b0101);
    assert_eq!(h.pixel(1, 2), 0);
    // Next scan: bin 0 drops below threshold and keeps the backup bit.
    assert!(h.update_spoke(1, &[1, 15, 2], 200, 8, 14, 15));
    assert_eq!(h.pixel(1, 0), 0b0010);
    assert_eq!(h.pixel(1, 1), 0b1011);
    assert!(!h.update_spoke(4, &[1, 2, 3], 0, 8, 14, 15));
    assert!(!h.update_spoke(0, &[1, 2], 0, 8, 14, 15));
    assert_eq!(h.pixel(9, 0), 0);
}

#[test]
fn history_pixels_match_doppler_states() {
    assert!(pixel_matches(DopplerState::AnyPlus, 0b0010));
    assert!(!pixel_matches(DopplerState::Any, 0b0010));
    assert!(pixel_matches(DopplerState::Approaching, 0b0101));
    assert!(pixel_matches(DopplerState::AnyDoppler, 0b1001));
    assert!(!pixel_matches(DopplerState::NotReceding, 0b1001));
    assert!(pixel_matches(DopplerState::NoDoppler, 0b0001));
}
