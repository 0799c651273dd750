use joystick_daemon::decode::encode_buttons;
use joystick_daemon::decode::ButtonState;

#[test]
fn decodes_concrete_example() {
    let payload: Vec<u8> = vec![0b0000_0001, 0, 0, 0, 0, 0, 0x00, 0x02, 0, 0, 0, 0, 0, 0];
    let state = ButtonState::from_buffer(payload.as_slice());
    assert!(state.pressed[0]);
    for i in 1..48 {
        assert!(!state.pressed[i]);
    }
    assert_eq!(state.joysticks, [512, 0, 0, 0]);
}

#[test]
fn decode_is_idempotent() {
    let payload: Vec<u8> = vec![0x5A, 0x00, 0xC3, 0x81, 0x7E, 0xFF, 0x34, 0x12, 0, 0, 9, 0, 0xFF, 0xFF];
    let first = ButtonState::from_buffer(payload.as_slice());
    let second = ButtonState::from_buffer(payload.as_slice());
    assert_eq!(first.pressed, second.pressed);
    assert_eq!(first.joysticks, second.joysticks);
}

#[test]
fn button_bits_are_lsb_first() {
    let payload: Vec<u8> = vec![0b1000_0000, 0, 0, 0, 0, 0b1000_0000, 0, 0, 0, 0, 0, 0, 0, 0];
    let state = ButtonState::from_buffer(payload.as_slice());
    for i in 0..48 {
        assert_eq!(state.pressed[i], i == 7 || i == 47);
    }
}

#[test]
fn all_buttons_pressed() {
    let payload: Vec<u8> = vec![0xFF; 14];
    let state = ButtonState::from_buffer(payload.as_slice());
    for i in 0..48 {
        assert!(state.pressed[i]);
    }
    assert_eq!(state.joysticks, [0xFFFF; 4]);
}

#[test]
fn axes_are_little_endian() {
    let payload: Vec<u8> = vec![0, 0, 0, 0, 0, 0, 0x34, 0x12, 0xFF, 0xFF, 0x00, 0x00, 0x01, 0x00];
    let state = ButtonState::from_buffer(payload.as_slice());
    assert_eq!(state.joysticks, [0x1234, 0xFFFF, 0x0000, 0x0001]);
}

#[test]
fn button_round_trip() {
    let mut flags = [false; 48];
    for i in 0..48 {
        flags[i] = (i * 7) % 3 == 0 || i == 41;
    }
    let bytes = encode_buttons(&flags);
    assert_eq!(bytes.len(), 6);
    let mut payload = bytes.clone();
    payload.extend_from_slice(&[0x10, 0x27, 3, 0, 0, 2, 0xEE, 0x01]);
    let state = ButtonState::from_buffer(payload.as_slice());
    assert_eq!(state.pressed, flags);
}

#[test]
fn encode_buttons_places_each_bit() {
    let mut flags = [false; 48];
    flags[0] = true;
    flags[9] = true;
    flags[47] = true;
    let bytes = encode_buttons(&flags);
    assert_eq!(bytes, vec![0b0000_0001, 0b0000_0010, 0, 0, 0, 0b1000_0000]);
}
