use isomidi::keyboard::{HarmonicKeyboard, HexAddr};
use isomidi::state::{
    choose_output_port, KeyboardState, MidiMessage, MOUSE_OID, NOTE_OFF_MSG, NOTE_ON_MSG,
};

fn on(note: u8) -> MidiMessage {
    MidiMessage { status: NOTE_ON_MSG, note, velocity: 70 }
}

fn off(note: u8) -> MidiMessage {
    MidiMessage { status: NOTE_OFF_MSG, note, velocity: 70 }
}

const ORIGIN: HexAddr = HexAddr { x: 0, y: 0 };
const RIGHT: HexAddr = HexAddr { x: 1, y: 0 };

#[test]
fn message_status_bytes() {
    assert_eq!(NOTE_ON_MSG, 0x90);
    assert_eq!(NOTE_OFF_MSG, 0x80);
    assert_eq!(MOUSE_OID, -1);
}

#[test]
fn start_and_end_note() {
    let kb = HarmonicKeyboard {};
    let state = KeyboardState::new(70);
    assert_eq!(state.start_note(ORIGIN, &kb), Some(on(120)));
    assert_eq!(state.end_note(RIGHT, &kb), Some(off(121)));
    assert_eq!(state.start_note(HexAddr { x: -121, y: 0 }, &kb), None);
}

#[test]
fn press_then_release_round_trip() {
    let kb = HarmonicKeyboard {};
    let mut state = KeyboardState::new(70);
    assert!(state.get_pressed().is_empty());
    assert_eq!(state.on_press(MOUSE_OID, ORIGIN, &kb), vec![on(120)]);
    assert_eq!(state.get_pressed(), vec![ORIGIN]);
    assert_eq!(state.on_release(MOUSE_OID, &kb), vec![off(120)]);
    assert!(state.get_pressed().is_empty());
}

#[test]
fn release_of_a_pointer_not_held_is_silent() {
    let kb = HarmonicKeyboard {};
    let mut state = KeyboardState::new(70);
    assert_eq!(state.on_release(7, &kb), vec![]);
}

#[test]
fn move_within_hexagon_is_silent() {
    let kb = HarmonicKeyboard {};
    let mut state = KeyboardState::new(70);
    state.on_press(3, ORIGIN, &kb);
    assert_eq!(state.on_move(3, ORIGIN, &kb), vec![]);
    assert_eq!(state.get_pressed(), vec![ORIGIN]);
}

#[test]
fn move_to_another_hexagon_starts_new_then_ends_old() {
    let kb = HarmonicKeyboard {};
    let mut state = KeyboardState::new(70);
    state.on_press(3, ORIGIN, &kb);
    assert_eq!(state.on_move(3, RIGHT, &kb), vec![on(121), off(120)]);
    assert_eq!(state.get_pressed(), vec![RIGHT]);
    assert_eq!(state.on_release(3, &kb), vec![off(121)]);
}

#[test]
fn move_of_a_pointer_not_held_presses() {
    let kb = HarmonicKeyboard {};
    let mut state = KeyboardState::new(70);
    assert_eq!(state.on_move(9, RIGHT, &kb), vec![on(121)]);
    assert_eq!(state.get_pressed(), vec![RIGHT]);
}

#[test]
fn move_between_hexagons_of_the_same_note_ends_it() {
    // (0, 0) and (7, 2) both play note 120: the note is started and then ended at once.
    let kb = HarmonicKeyboard {};
    let mut state = KeyboardState::new(70);
    state.on_press(1, ORIGIN, &kb);
    assert_eq!(state.on_move(1, HexAddr { x: 7, y: 2 }, &kb), vec![on(120), off(120)]);
}

#[test]
fn keys_without_notes_send_nothing() {
    let kb = HarmonicKeyboard {};
    let mut state = KeyboardState::new(70);
    let silent = HexAddr { x: -121, y: 0 };
    assert_eq!(state.on_press(1, silent, &kb), vec![]);
    assert_eq!(state.get_pressed(), vec![silent]);
    assert_eq!(state.on_release(1, &kb), vec![]);
}

#[test]
fn several_pointers_are_tracked_apart() {
    let kb = HarmonicKeyboard {};
    let mut state = KeyboardState::new(70);
    state.on_press(1, ORIGIN, &kb);
    state.on_press(2, RIGHT, &kb);
    state.on_press(MOUSE_OID, HexAddr { x: 2, y: 0 }, &kb);
    let pressed = state.get_pressed();
    assert_eq!(pressed.len(), 3);
    assert!(pressed.contains(&ORIGIN));
    assert!(pressed.contains(&RIGHT));
    assert!(pressed.contains(&HexAddr { x: 2, y: 0 }));
    assert_eq!(state.on_release(2, &kb), vec![off(121)]);
    let pressed = state.get_pressed();
    assert_eq!(pressed.len(), 2);
    assert!(!pressed.contains(&RIGHT));
}

#[test]
fn pressing_a_held_pointer_replaces_its_hexagon() {
    let kb = HarmonicKeyboard {};
    let mut state = KeyboardState::new(70);
    state.on_press(1, ORIGIN, &kb);
    assert_eq!(state.on_press(1, RIGHT, &kb), vec![on(121)]);
    assert_eq!(state.get_pressed(), vec![RIGHT]);
}

#[test]
fn velocity_is_passed_through() {
    let kb = HarmonicKeyboard {};
    let mut state = KeyboardState::new(5);
    assert_eq!(
        state.on_press(1, ORIGIN, &kb),
        vec![MidiMessage { status: NOTE_ON_MSG, note: 120, velocity: 5 }]
    );
}

#[test]
fn output_port_is_the_last_one() {
    assert_eq!(choose_output_port(0), None);
    assert_eq!(choose_output_port(1), Some(0));
    assert_eq!(choose_output_port(4), Some(3));
}

#[test]
fn held_pointers_follow_their_latest_event() {
    let kb = HarmonicKeyboard {};
    let mut state = KeyboardState::new(70);
    state.on_press(1, ORIGIN, &kb);
    state.on_press(2, RIGHT, &kb);
    state.on_move(1, HexAddr { x: 3, y: 3 }, &kb);
    state.on_release(2, &kb);
    state.on_move(4, HexAddr { x: 4, y: 0 }, &kb);
    state.on_release(5, &kb);
    let pressed = state.get_pressed();
    assert_eq!(pressed.len(), 2);
    assert!(pressed.contains(&HexAddr { x: 3, y: 3 }));
    assert!(pressed.contains(&HexAddr { x: 4, y: 0 }));
    state.on_release(1, &kb);
    assert_eq!(state.get_pressed(), vec![HexAddr { x: 4, y: 0 }]);
}
