//! Input event conversions and wire round trips for event payloads.

use cross_control::decode_message;
use cross_control::encode_message;
use cross_control::event::button_state_to_evdev_value;
use cross_control::event::char_to_keycode;
use cross_control::event::evdev_value_to_button_state;
use cross_control::event::keycode_name;
use cross_control::ButtonState;
use cross_control::CapturedEvent;
use cross_control::DeviceId;
use cross_control::InputEvent;
use cross_control::InputMessage;
use cross_control::KeyCode;
use cross_control::Message;
use cross_control::MouseButton;
use cross_control::ScrollAxis;
use cross_control::ScrollDirection;

fn event_round_trip(event: InputEvent) -> InputEvent {
    let msg = Message::Input(InputMessage {
        device_id: DeviceId(1),
        timestamp_us: 42,
        events: vec![event],
    });
    let bytes = encode_message(&msg).unwrap();
    let decoded = decode_message(&bytes[4..].to_vec()).unwrap();
    match decoded {
        Message::Input(im) => {
            assert_eq!(im.events.len(), 1);
            im.events[0]
        }
        _ => panic!("unexpected message type"),
    }
}

#[test]
fn button_state_conversion() {
    assert_eq!(evdev_value_to_button_state(0), Some(ButtonState::Released));
    assert_eq!(evdev_value_to_button_state(1), Some(ButtonState::Pressed));
    assert_eq!(evdev_value_to_button_state(2), Some(ButtonState::Pressed));
    assert_eq!(evdev_value_to_button_state(3), None);
    assert_eq!(button_state_to_evdev_value(ButtonState::Pressed), 1);
    assert_eq!(button_state_to_evdev_value(ButtonState::Released), 0);
}

#[test]
fn input_event_key_roundtrip() {
    let event = InputEvent::Key { code: KeyCode::KeyA, state: ButtonState::Pressed };
    assert_eq!(event_round_trip(event), event);
}

#[test]
fn input_event_mouse_move_roundtrip() {
    let event = InputEvent::MouseMove { dx: -42, dy: 100 };
    assert_eq!(event_round_trip(event), event);
}

#[test]
fn input_event_scroll_roundtrip() {
    let event = InputEvent::Scroll {
        axis: ScrollAxis::Vertical,
        direction: ScrollDirection::Negative,
        amount_bits: 1.5f64.to_bits(),
    };
    assert_eq!(event_round_trip(event), event);
}

#[test]
fn input_event_mouse_button_roundtrip() {
    let event = InputEvent::MouseButton { button: MouseButton::Left, state: ButtonState::Released };
    assert_eq!(event_round_trip(event), event);
}

#[test]
fn input_event_absolute_roundtrip() {
    let event = InputEvent::MouseMoveAbsolute {
        x_bits: 0.25f64.to_bits(),
        y_bits: 0.75f64.to_bits(),
    };
    assert_eq!(event_round_trip(event), event);
}

#[test]
fn captured_event_roundtrip() {
    let captured = CapturedEvent {
        device_id: DeviceId(1),
        timestamp_us: 123_456_789,
        event: InputEvent::Key { code: KeyCode::LeftCtrl, state: ButtonState::Pressed },
    };
    let msg = Message::Input(InputMessage {
        device_id: captured.device_id,
        timestamp_us: captured.timestamp_us,
        events: vec![captured.event],
    });
    let bytes = encode_message(&msg).unwrap();
    let decoded = decode_message(&bytes[4..].to_vec()).unwrap();
    match decoded {
        Message::Input(im) => {
            assert_eq!(im.device_id, captured.device_id);
            assert_eq!(im.timestamp_us, captured.timestamp_us);
            assert_eq!(im.events[0], captured.event);
        }
        _ => panic!("unexpected message type"),
    }
}

#[test]
fn unknown_keycode_roundtrip() {
    let event = InputEvent::Key { code: KeyCode::Unknown(0xDEAD), state: ButtonState::Pressed };
    assert_eq!(event_round_trip(event), event);
}

#[test]
fn mouse_button_other_roundtrip() {
    let event = InputEvent::MouseButton {
        button: MouseButton::Other(42),
        state: ButtonState::Pressed,
    };
    assert_eq!(event_round_trip(event), event);
}

#[test]
fn char_to_keycode_letters() {
    assert_eq!(char_to_keycode('a'), Some(KeyCode::KeyA));
    assert_eq!(char_to_keycode('A'), Some(KeyCode::KeyA));
    assert_eq!(char_to_keycode('z'), Some(KeyCode::KeyZ));
    assert_eq!(char_to_keycode('q'), None);
    assert_eq!(char_to_keycode('1'), None);
}

#[test]
fn keycode_names_are_stable() {
    assert_eq!(keycode_name(KeyCode::LeftCtrl), Some("LeftCtrl"));
    assert_eq!(keycode_name(KeyCode::Escape), Some("Escape"));
    assert_eq!(keycode_name(KeyCode::Numpad7), Some("Numpad7"));
    assert_eq!(keycode_name(KeyCode::Unknown(7)), None);
}
