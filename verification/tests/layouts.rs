use isomidi::keyboard::{HarmonicKeyboard, HexAddr, JammerKeyboard, Keyboard};

fn key(kb: &impl Keyboard, x: i16, y: i16) -> Option<(String, u8)> {
    let addr = HexAddr { x, y };
    assert!(kb.key_in_range(addr));
    kb.get_key_info(addr).map(|k| (k.label, k.note))
}

#[test]
fn jammer_origin_key() {
    assert_eq!(key(&JammerKeyboard {}, 0, 0), Some(("Bb".to_string(), 134)));
}

#[test]
fn jammer_upper_row_key() {
    assert_eq!(key(&JammerKeyboard {}, 1, 1), Some(("G".to_string(), 131)));
    assert_eq!(key(&JammerKeyboard {}, 5, 1), Some(("Eb".to_string(), 139)));
}

#[test]
fn jammer_every_column_of_a_key_set() {
    let kb = JammerKeyboard {};
    let bottom = ["Bb", "C", "D", "E", "F#", "G#"];
    let top = ["F", "G", "A", "B", "C#", "Eb"];
    for col in 0..6i16 {
        let (label, note) = key(&kb, col, 0).unwrap();
        assert_eq!(label, bottom[col as usize]);
        assert_eq!(note, 134 + 2 * col as u8);
        let (label, note) = key(&kb, col, 1).unwrap();
        assert_eq!(label, top[col as usize]);
        assert_eq!(note, 129 + 2 * col as u8);
    }
}

#[test]
fn jammer_next_key_set_is_an_octave_up() {
    let kb = JammerKeyboard {};
    for col in 0..6i16 {
        for y in 0..4i16 {
            let (l0, n0) = key(&kb, col, y).unwrap();
            let (l1, n1) = key(&kb, col + 6, y).unwrap();
            assert_eq!(l0, l1);
            assert_eq!(n1, n0 + 12);
        }
    }
}

#[test]
fn jammer_two_rows_down_is_an_octave_down() {
    let kb = JammerKeyboard {};
    let (l0, n0) = key(&kb, 3, 0).unwrap();
    let (l1, n1) = key(&kb, 3, 2).unwrap();
    assert_eq!(l0, l1);
    assert_eq!(n1 + 12, n0);
}

#[test]
fn jammer_negative_key_set_boundary() {
    let kb = JammerKeyboard {};
    assert_eq!(key(&kb, -6, 0), Some(("Bb".to_string(), 122)));
}

#[test]
fn jammer_label_names_note_four_semitones_up() {
    // label = pitch class of (note + 8) mod 12
    let names = ["C", "C#", "D", "Eb", "E", "F", "F#", "G", "G#", "A", "Bb", "B"];
    let kb = JammerKeyboard {};
    for x in 0..12i16 {
        for y in 0..6i16 {
            let (label, note) = key(&kb, x, y).unwrap();
            assert_eq!(label, names[((note as usize) + 8) % 12]);
        }
    }
}

#[test]
fn jammer_out_of_range_addresses() {
    let kb = JammerKeyboard {};
    // a negative column within a key set
    assert!(!kb.key_in_range(HexAddr { x: -1, y: 0 }));
    // the octave offset's low byte exceeds 144
    assert!(!kb.key_in_range(HexAddr { x: 0, y: 24 }));
    // the half-row term overflows i16
    assert!(!kb.key_in_range(HexAddr { x: 0, y: 6000 }));
    assert!(kb.key_in_range(HexAddr { x: 0, y: 20 }));
    assert!(!kb.key_in_range(HexAddr { x: 0, y: 22 }));
}

#[test]
fn harmonic_origin_is_c() {
    assert_eq!(key(&HarmonicKeyboard {}, 0, 0), Some(("C".to_string(), 120)));
}

#[test]
fn harmonic_step_right_is_a_semitone() {
    let kb = HarmonicKeyboard {};
    assert_eq!(key(&kb, 1, 0), Some(("C#".to_string(), 121)));
    for x in 0..20i16 {
        let (_, n0) = key(&kb, x, 3).unwrap();
        let (_, n1) = key(&kb, x + 1, 3).unwrap();
        assert_eq!(n1 as u16, (n0 as u16 + 1) % 256);
    }
}

#[test]
fn harmonic_two_rows_down_is_a_fifth_down() {
    let kb = HarmonicKeyboard {};
    assert_eq!(key(&kb, 0, 2), Some(("F".to_string(), 113)));
    assert_eq!(key(&kb, 0, 1), Some(("A".to_string(), 117)));
    for y in [-6i16, -4, -3, -2, 0, 1, 2, 5] {
        let (_, n0) = key(&kb, 4, y).unwrap();
        let (_, n1) = key(&kb, 4, y + 2).unwrap();
        assert_eq!(n1 + 7, n0);
    }
}

#[test]
fn harmonic_fifth_fails_across_row_minus_one() {
    let kb = HarmonicKeyboard {};
    let (_, n0) = key(&kb, 0, -1).unwrap();
    let (_, n1) = key(&kb, 0, 1).unwrap();
    assert_eq!(n0, 123);
    assert_eq!(n1, 117);
    assert_ne!(n1 + 7, n0);
}

#[test]
fn harmonic_negative_rows() {
    assert_eq!(key(&HarmonicKeyboard {}, 5, -3), Some(("Eb".to_string(), 135)));
}

#[test]
fn harmonic_below_note_zero_has_no_key() {
    let kb = HarmonicKeyboard {};
    assert_eq!(key(&kb, -121, 0), None);
    assert_eq!(key(&kb, -120, 0), Some(("C".to_string(), 0)));
}

#[test]
fn harmonic_high_note_numbers_wrap_the_note_but_not_the_label() {
    let kb = HarmonicKeyboard {};
    // note number 320: label from 320 % 12, note from 320 % 256
    assert_eq!(key(&kb, 200, 0), Some(("G#".to_string(), 64)));
}

#[test]
fn harmonic_out_of_range_addresses() {
    let kb = HarmonicKeyboard {};
    assert!(!kb.key_in_range(HexAddr { x: i16::MAX, y: 0 }));
    assert!(!kb.key_in_range(HexAddr { x: 0, y: 11000 }));
    assert!(!kb.key_in_range(HexAddr { x: 0, y: 10000 }));
    assert!(kb.key_in_range(HexAddr { x: 0, y: 9000 }));
    assert!(kb.get_key_info(HexAddr { x: 0, y: 9000 }).is_none());
}
