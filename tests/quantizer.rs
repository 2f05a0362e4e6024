use rustique::note::{name_of, nearest_note, note_at, UNITS_PER_HZ};

fn units(hz: f64) -> i64 {
    (hz * UNITS_PER_HZ as f64).round() as i64
}

#[test]
fn a440_is_a4() {
    let m = nearest_note(units(440.0)).unwrap();
    assert_eq!((m.note, m.octave, m.frequency), (9, 4, 704000));
    assert_eq!(m.label(), "A4");
}

#[test]
fn non_positive_frequency_has_no_note() {
    assert!(nearest_note(0).is_none());
    assert!(nearest_note(-1).is_none());
    assert!(nearest_note(i64::MIN).is_none());
}

#[test]
fn every_reference_frequency_round_trips() {
    for octave in 0..8u32 {
        for note in 0..12usize {
            let r = note_at(octave, note);
            let m = nearest_note(r.frequency as i64).unwrap();
            assert_eq!((m.note, m.octave), (note, octave));
            assert_eq!(m.frequency, r.frequency);
        }
    }
}

#[test]
fn octaves_never_fall_as_frequency_rises() {
    let mut last_octave = 0u32;
    let mut last_index = 0u32;
    let mut f: i64 = 1;
    while f < units(8000.0) {
        let m = nearest_note(f).unwrap();
        let index = 12 * m.octave + m.note as u32;
        assert!(m.octave >= last_octave);
        assert!(index >= last_index);
        last_octave = m.octave;
        last_index = index;
        f += 97;
    }
}

#[test]
fn extremes_clamp_to_the_table() {
    let low = nearest_note(1).unwrap();
    assert_eq!(low.label(), "C0");
    let high = nearest_note(units(100000.0)).unwrap();
    assert_eq!(high.label(), "B7");
    let huge = nearest_note(i64::MAX).unwrap();
    assert_eq!(huge.label(), "B7");
}

#[test]
fn equidistant_frequency_takes_the_first_note() {
    // Midway between A4 (704000) and A#4 (745856).
    let m = nearest_note(724928).unwrap();
    assert_eq!(m.label(), "A4");
    let m = nearest_note(724929).unwrap();
    assert_eq!(m.label(), "A#4");
}

#[test]
fn labels_and_names() {
    assert_eq!(note_at(3, 1).label(), "C#3");
    assert_eq!(note_at(0, 11).label(), "B0");
    assert_eq!(name_of(8), "G#");
    assert_eq!(note_at(4, 0).frequency, 26163 * 16);
}
