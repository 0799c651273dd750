use joystick_daemon::decode::ButtonState;
use joystick_daemon::dispatch::{axis_events, axis_map, button_events, button_map, center_axis, Axis, Button};

#[test]
fn axis_centering() {
    assert_eq!(center_axis(512), 0);
    assert_eq!(center_axis(0), -512);
    assert_eq!(center_axis(1023), 511);
}

#[test]
fn button_map_table() {
    assert_eq!(button_map(0), Button::LeftNorth);
    assert_eq!(button_map(3), Button::LeftSouth);
    assert_eq!(button_map(5), Button::RightSouth);
    assert_eq!(button_map(9), Button::RightNorth);
    assert_eq!(button_map(10), Button::R2);
    assert_eq!(button_map(13), Button::L1);
    assert_eq!(button_map(14), Button::TriggerHappy1);
    assert_eq!(button_map(30), Button::TriggerHappy17);
    assert_eq!(button_map(47), Button::TriggerHappy34);
}

#[test]
fn axis_map_table() {
    assert_eq!(axis_map(0), Axis::X);
    assert_eq!(axis_map(1), Axis::Y);
    assert_eq!(axis_map(2), Axis::RX);
    assert_eq!(axis_map(3), Axis::RY);
}

#[test]
fn event_batches_follow_the_tables() {
    let mut pressed = [false; 48];
    pressed[0] = true;
    pressed[13] = true;
    let state = ButtonState { pressed, joysticks: [512, 0, 1023, 700] };

    let buttons = button_events(&state);
    assert_eq!(buttons.len(), 48);
    assert_eq!(buttons[0], (Button::LeftNorth, true));
    assert_eq!(buttons[1], (Button::LeftWest, false));
    assert_eq!(buttons[13], (Button::L1, true));
    assert_eq!(buttons[47], (Button::TriggerHappy34, false));

    let axes = axis_events(&state);
    assert_eq!(axes, vec![(Axis::X, 0), (Axis::Y, -512), (Axis::RX, 511), (Axis::RY, 188)]);
}

#[test]
fn decoded_example_dispatches_centered_axes() {
    let payload: Vec<u8> = vec![0b0000_0001, 0, 0, 0, 0, 0, 0x00, 0x02, 0, 0, 0, 0, 0, 0];
    let state = ButtonState::from_buffer(payload.as_slice());
    let axes = axis_events(&state);
    assert_eq!(axes[0], (Axis::X, 0));
    assert_eq!(axes[1], (Axis::Y, -512));
}
