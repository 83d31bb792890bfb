use murrelet::keys::{AppInputValues, KeyFrameInput, MurreletKey, KEY_COUNT};
use murrelet::midi::{KeyPress, MidiDevice, MidiMessage, MidiValues, MIDI_COUNT, PAD_DEBOUNCE_MICROS};

fn keys_with(down: &[usize]) -> Vec<bool> {
    let mut v = vec![false; KEY_COUNT];
    for &i in down {
        v[i] = true;
    }
    v
}

#[test]
fn key_names_are_letters() {
    assert_eq!(MurreletKey::A.to_str(), "A");
    assert_eq!(MurreletKey::Z.to_str(), "Z");
    assert_eq!(MurreletKey::M.index(), 12);
    assert_eq!(MurreletKey::from_index(12), MurreletKey::M);
}

#[test]
fn key_index_round_trips() {
    for i in 0..KEY_COUNT {
        assert_eq!(MurreletKey::from_index(i).index(), i);
    }
}

#[test]
fn new_input_is_quiet() {
    let v = AppInputValues::new(true);
    assert!(!v.has_click());
    assert!(v.tracks_mouse());
    assert!(v.key_cycle_bool(MurreletKey::A));
    assert!(!v.key_fire_bool(MurreletKey::A));
    assert!(!AppInputValues::new_centered(false).tracks_mouse());
}

#[test]
fn key_press_fires_once_and_counts() {
    let mut v = AppInputValues::new(true);
    v.update(&KeyFrameInput { keys: Some(keys_with(&[0])), mouse_left_is_down: false });
    assert!(v.key_fire_bool(MurreletKey::A));
    assert!(!v.key_cycle_bool(MurreletKey::A));
    assert_eq!(v.keys_cycle[0], 1);
    // held: no longer a fresh press
    v.update(&KeyFrameInput { keys: Some(keys_with(&[0])), mouse_left_is_down: false });
    assert!(!v.key_fire_bool(MurreletKey::A));
    assert_eq!(v.keys_cycle[0], 1);
    // released: changed, but no count
    v.update(&KeyFrameInput { keys: Some(keys_with(&[])), mouse_left_is_down: false });
    assert!(v.keys_changed[0]);
    assert_eq!(v.keys_cycle[0], 1);
    // pressed again
    v.update(&KeyFrameInput { keys: Some(keys_with(&[0])), mouse_left_is_down: false });
    assert_eq!(v.keys_cycle[0], 2);
    assert!(v.key_cycle_bool(MurreletKey::A));
}

#[test]
fn missing_keyboard_keeps_keys() {
    let mut v = AppInputValues::new(true);
    v.update(&KeyFrameInput { keys: Some(keys_with(&[3])), mouse_left_is_down: false });
    v.update(&KeyFrameInput { keys: None, mouse_left_is_down: false });
    assert!(v.keys_fire[3]);
    assert!(!v.keys_changed[3]);
}

#[test]
fn held_mouse_counts_clicks() {
    let mut v = AppInputValues::new(false);
    v.update(&KeyFrameInput { keys: None, mouse_left_is_down: true });
    v.update(&KeyFrameInput { keys: None, mouse_left_is_down: true });
    assert!(v.has_click());
    assert_eq!(v.click_cycle, 2);
    v.update(&KeyFrameInput { keys: None, mouse_left_is_down: false });
    assert!(!v.has_click());
    assert_eq!(v.click_cycle, 2);
}

#[test]
fn keyboard_values_name_each_key() {
    let mut v = AppInputValues::new(true);
    v.update(&KeyFrameInput { keys: Some(keys_with(&[1])), mouse_left_is_down: false });
    let vals = v.keyboard_values();
    assert_eq!(vals.len(), 2 * KEY_COUNT);
    assert_eq!(vals[0], ("kAt".to_string(), false));
    assert_eq!(vals[1], ("kAf".to_string(), false));
    assert_eq!(vals[2], ("kBt".to_string(), true));
    assert_eq!(vals[3], ("kBf".to_string(), true));
    assert!(AppInputValues::new(false).keyboard_values().is_empty());
}

#[test]
fn all_keys_fire_in_order() {
    let mut v = AppInputValues::new(true);
    v.update(&KeyFrameInput { keys: Some(keys_with(&[25])), mouse_left_is_down: false });
    let all = v.all_keys_fire_bool();
    assert_eq!(all.len(), KEY_COUNT);
    assert_eq!(all[25], (MurreletKey::Z, true));
    assert_eq!(all[0], (MurreletKey::A, false));
}

#[test]
fn midi_device_names() {
    assert_eq!(MidiDevice::from_name(Some("Midi Fighter Twister".to_string())), MidiDevice::MidiTwister);
    assert_eq!(MidiDevice::from_name(Some("Midi Fighter Spectra".to_string())), MidiDevice::MidiFighter);
    assert_eq!(MidiDevice::from_name(Some("nanoKONTROL2 SLIDER/KNOB".to_string())), MidiDevice::NanoKontrol2);
    assert_eq!(MidiDevice::from_name(Some("something".to_string())), MidiDevice::Unknown);
    assert_eq!(MidiDevice::from_name(None), MidiDevice::Unknown);
    assert_eq!(MidiDevice::MidiTwister.to_str(), "midi-twister");
    assert_eq!(MidiDevice::Akai.to_str(), "akai");
}

#[test]
fn twister_messages_decode() {
    let m = MidiMessage::new(MidiDevice::MidiTwister, 5, &[176, 3, 99]);
    assert!(matches!(m.key, Some(KeyPress::Dial(3, 99))));
    let m = MidiMessage::new(MidiDevice::MidiTwister, 5, &[177, 4, 127]);
    assert!(matches!(m.key, Some(KeyPress::Pad(4))));
    let m = MidiMessage::new(MidiDevice::MidiTwister, 5, &[177, 4, 0]);
    assert!(matches!(m.key, Some(KeyPress::ReleasePad(4))));
    let m = MidiMessage::new(MidiDevice::MidiTwister, 5, &[1, 2]);
    assert!(m.key.is_none());
}

#[test]
fn fighter_and_akai_messages_decode() {
    let m = MidiMessage::new(MidiDevice::MidiFighter, 0, &[144, 40, 1]);
    assert!(matches!(m.key, Some(KeyPress::Fight(4))));
    let m = MidiMessage::new(MidiDevice::MidiFighter, 0, &[128, 36, 1]);
    assert!(matches!(m.key, Some(KeyPress::ReleaseFight(0))));
    let m = MidiMessage::new(MidiDevice::Akai, 0, &[9, 7]);
    assert!(matches!(m.key, Some(KeyPress::Pad(7))));
    let m = MidiMessage::new(MidiDevice::Akai, 0, &[176, 72, 10]);
    assert!(matches!(m.key, Some(KeyPress::Dial(2, 10))));
}

#[test]
fn nano_messages_decode() {
    let m = MidiMessage::new(MidiDevice::NanoKontrol2, 0, &[176, 17, 5]);
    assert!(matches!(m.key, Some(KeyPress::Dial(9, 5))));
    let m = MidiMessage::new(MidiDevice::NanoKontrol2, 0, &[176, 33, 127]);
    assert!(matches!(m.key, Some(KeyPress::Pad(1))));
    let m = MidiMessage::new(MidiDevice::NanoKontrol2, 0, &[176, 33, 0]);
    assert!(m.key.is_none());
}

#[test]
fn midi_values_start_centered() {
    let v = MidiValues::new(4, MIDI_COUNT, 2);
    assert_eq!(v.dials, vec![64u8; MIDI_COUNT]);
    assert_eq!(v.pads, vec![0usize; MIDI_COUNT]);
    assert!(!v.updated_since_reset());
}

#[test]
fn pad_hits_are_debounced() {
    let mut v = MidiValues::new(4, MIDI_COUNT, 2);
    let first = MidiMessage::new(MidiDevice::MidiTwister, PAD_DEBOUNCE_MICROS + 1, &[177, 2, 127]);
    v.update(&first, 0);
    assert_eq!(v.pads[2], 1);
    assert!(v.pads_bool(2));
    let soon = MidiMessage::new(MidiDevice::MidiTwister, PAD_DEBOUNCE_MICROS + 2, &[177, 2, 127]);
    v.update(&soon, 0);
    assert_eq!(v.pads[2], 1);
    assert_eq!(v.last_update, PAD_DEBOUNCE_MICROS + 2);
    let later = MidiMessage::new(MidiDevice::MidiTwister, 3 * PAD_DEBOUNCE_MICROS, &[177, 2, 127]);
    v.update(&later, 0);
    assert_eq!(v.pads[2], 2);
    assert_eq!(v.pads_cycle(2, 2), 0);
}

#[test]
fn dials_and_fighters_update() {
    let mut v = MidiValues::new(4, MIDI_COUNT, 2);
    v.update(&MidiMessage::new(MidiDevice::MidiTwister, 1, &[176, 1, 10]), 0);
    assert_eq!(v.dials[1], 10);
    assert!(v.dials_changed[1]);
    assert!(v.updated_since_reset());
    v.reset();
    assert!(!v.dials_changed[1]);
    v.update(&MidiMessage::new(MidiDevice::MidiFighter, 2, &[144, 37, 1]), 77);
    assert_eq!(v.fighter[1], 1);
    assert_eq!(v.fighter_times[1], Some(77));
    v.update(&MidiMessage::new(MidiDevice::MidiFighter, 3, &[128, 37, 1]), 80);
    assert_eq!(v.fighter[1], 2);
}

#[test]
fn pad_values_name_each_pad() {
    let mut v = MidiValues::new(4, MIDI_COUNT, 2);
    v.pads_update(0);
    let vals = v.pad_values();
    assert_eq!(vals.len(), 2 * MIDI_COUNT);
    assert_eq!(vals[0], ("m0t".to_string(), true));
    assert_eq!(vals[1], ("m0f".to_string(), true));
    assert_eq!(vals[20], ("m10t".to_string(), false));
}

#[test]
fn reset_then_hit_reports_updates() {
    let mut v = MidiValues::new(MIDI_COUNT, MIDI_COUNT, 0);
    v.pads_update(3);
    v.pads_update(3);
    v.pads_update(3);
    assert!(v.updated_since_reset());
    v.reset();
    assert!(!v.updated_since_reset());
    assert_eq!(v.pads_cycle(3, 2), 1);
    v.pads_update(3);
    v.pads_update(3);
    assert!(v.updated_since_reset());
    assert_eq!(v.pads_cycle(3, 2), 1);
}
