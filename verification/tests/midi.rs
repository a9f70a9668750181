use pyin_rs::midi_from_hz;

fn midi(hz: f32) -> u8 {
    midi_from_hz(hz.to_bits())
}

#[test]
fn midi_conversion_basics() {
    assert_eq!(midi(440.0), 69);
    assert_eq!(midi(880.0), 81);
    assert_eq!(midi(220.0), 57);
}

#[test]
fn midi_fixture_pitches() {
    assert_eq!(midi(65.41), 36);
    assert_eq!(midi(1046.50), 84);
    assert_eq!(midi(261.63), 60);
}

#[test]
fn midi_out_of_range_values() {
    assert_eq!(midi(0.0), 0);
    assert_eq!(midi(-0.0), 0);
    assert_eq!(midi(-440.0), 0);
    assert_eq!(midi(f32::NAN), 0);
    assert_eq!(midi(f32::INFINITY), 127);
    assert_eq!(midi(f32::NEG_INFINITY), 0);
    assert_eq!(midi(1.0e-40), 0);
    assert_eq!(midi(5.0), 0);
    assert_eq!(midi(20000.0), 127);
    assert_eq!(midi(f32::MAX), 127);
}

#[test]
fn midi_rounds_at_quarter_tone() {
    // lower edge of A#4 is 440 * 2^(0.5 / 12) = 452.8929841231365 Hz
    assert_eq!(midi(452.89), 69);
    assert_eq!(midi(452.90), 70);
}

#[test]
fn midi_matches_log_formula_away_from_edges() {
    let mut hz = 8.0f64;
    while hz < 13000.0 {
        let x = 69.0 + 12.0 * (hz / 440.0).log2();
        if (x - x.floor() - 0.5).abs() > 1e-3 {
            let expected = x.round().clamp(0.0, 127.0) as u8;
            assert_eq!(midi(hz as f32), expected, "at {} Hz", hz);
        }
        hz *= 1.013;
    }
}
