//! Wire round trips for every message variant, framing, and identity.

use cross_control::decode_message;
use cross_control::encode_message;
use cross_control::message::protocol_version;
use cross_control::message::verify_version;
use cross_control::DaemonError;
use cross_control::ProtocolVersion;
use cross_control::parse_frame_header;
use cross_control::ClipboardContent;
use cross_control::ClipboardFormat;
use cross_control::ClipboardMessage;
use cross_control::ControlMessage;
use cross_control::DeviceCapability;
use cross_control::DeviceId;
use cross_control::DeviceInfo;
use cross_control::InputMessage;
use cross_control::KeyCode;
use cross_control::InputEvent;
use cross_control::ButtonState;
use cross_control::MachineId;
use cross_control::Message;
use cross_control::ProtocolError;
use cross_control::ScreenEdge;
use cross_control::ScreenGeometry;
use cross_control::MAX_MESSAGE_SIZE;

fn round_trip(msg: &Message) -> Message {
    let bytes = encode_message(msg).unwrap();
    let len = parse_frame_header(bytes[0], bytes[1], bytes[2], bytes[3]);
    assert_eq!(len as usize, bytes.len() - 4);
    decode_message(&bytes[4..].to_vec()).unwrap()
}

#[test]
fn hello_roundtrip() {
    let msg = Message::Control(ControlMessage::Hello {
        version: protocol_version(),
        machine_id: MachineId::new(),
        name: "test-machine".to_string(),
        screen: ScreenGeometry::new(1920, 1080),
    });
    let decoded = round_trip(&msg);
    assert_eq!(decoded, msg);
}

#[test]
fn welcome_roundtrip() {
    let msg = Message::Control(ControlMessage::Welcome {
        version: protocol_version(),
        machine_id: MachineId::new(),
        name: "remote".to_string(),
        screen: ScreenGeometry::new(2560, 1440),
    });
    let decoded = round_trip(&msg);
    assert_eq!(decoded, msg);
}

#[test]
fn device_announce_roundtrip() {
    let msg = Message::Control(ControlMessage::DeviceAnnounce(DeviceInfo {
        id: DeviceId(1),
        name: "Keyboard".to_string(),
        capabilities: vec![DeviceCapability::Keyboard],
    }));
    let decoded = round_trip(&msg);
    assert_eq!(decoded, msg);
}

#[test]
fn enter_leave_roundtrip() {
    let enter = Message::Control(ControlMessage::Enter { edge: ScreenEdge::Right, position: 540 });
    assert_eq!(round_trip(&enter), enter);

    let leave = Message::Control(ControlMessage::Leave { edge: ScreenEdge::Left, position: 540 });
    assert_eq!(round_trip(&leave), leave);
}

#[test]
fn input_message_roundtrip() {
    let msg = Message::Input(InputMessage {
        device_id: DeviceId(1),
        timestamp_us: 1_000_000,
        events: vec![
            InputEvent::Key { code: KeyCode::KeyA, state: ButtonState::Pressed },
            InputEvent::Key { code: KeyCode::KeyA, state: ButtonState::Released },
        ],
    });
    let decoded = round_trip(&msg);
    assert_eq!(decoded, msg);
}

#[test]
fn clipboard_offer_roundtrip() {
    let msg = Message::Clipboard(ClipboardMessage::Offer {
        formats: vec![ClipboardFormat::PlainText, ClipboardFormat::Html],
        size_hint: 1024,
    });
    let decoded = round_trip(&msg);
    assert_eq!(decoded, msg);
}

#[test]
fn clipboard_data_roundtrip() {
    let msg = Message::Clipboard(ClipboardMessage::Data(ClipboardContent::text("shared text")));
    let decoded = round_trip(&msg);
    assert_eq!(decoded, msg);
}

#[test]
fn message_ping_pong_roundtrip() {
    let ping = Message::Control(ControlMessage::Ping { seq: 42 });
    assert_eq!(round_trip(&ping), ping);

    let pong = Message::Control(ControlMessage::Pong { seq: 42 });
    assert_eq!(round_trip(&pong), pong);
}

#[test]
fn bye_roundtrip() {
    let msg = Message::Control(ControlMessage::Bye);
    assert_eq!(round_trip(&msg), msg);
}

#[test]
fn screen_update_roundtrip() {
    let msg = Message::Control(ControlMessage::ScreenUpdate(ScreenGeometry {
        width: 800,
        height: 600,
        x: -10,
        y: 20,
    }));
    assert_eq!(round_trip(&msg), msg);
}

#[test]
fn device_gone_and_enter_ack_roundtrip() {
    let gone = Message::Control(ControlMessage::DeviceGone { device_id: DeviceId(9) });
    assert_eq!(round_trip(&gone), gone);

    let ack = Message::Control(ControlMessage::EnterAck);
    assert_eq!(round_trip(&ack), ack);
}

#[test]
fn encode_decode_roundtrip() {
    let msg = Message::Control(ControlMessage::Hello {
        version: protocol_version(),
        machine_id: MachineId::new(),
        name: "test".to_string(),
        screen: ScreenGeometry::new(1920, 1080),
    });

    let bytes = encode_message(&msg).unwrap();
    let len = parse_frame_header(bytes[0], bytes[1], bytes[2], bytes[3]);
    assert_eq!(len as usize, bytes.len() - 4);

    let decoded = decode_message(&bytes[4..].to_vec()).unwrap();
    match decoded {
        Message::Control(ControlMessage::Hello { name, .. }) => {
            assert_eq!(name, "test");
        }
        _ => panic!("unexpected message type"),
    }
}

#[test]
fn ping_pong_wire_roundtrip() {
    let msg = Message::Control(ControlMessage::Ping { seq: 12345 });
    let bytes = encode_message(&msg).unwrap();
    let decoded = decode_message(&bytes[4..].to_vec()).unwrap();
    match decoded {
        Message::Control(ControlMessage::Ping { seq }) => assert_eq!(seq, 12345),
        _ => panic!("unexpected message type"),
    }
}

#[test]
fn encoding_is_deterministic() {
    let make = || {
        Message::Control(ControlMessage::Hello {
            version: protocol_version(),
            machine_id: MachineId::from_bits(7),
            name: "same".to_string(),
            screen: ScreenGeometry::new(1920, 1080),
        })
    };
    assert_eq!(encode_message(&make()).unwrap(), encode_message(&make()).unwrap());
}

#[test]
fn oversize_message_is_refused() {
    let msg = Message::Clipboard(ClipboardMessage::Data(ClipboardContent {
        format: ClipboardFormat::Png,
        data: vec![0u8; (MAX_MESSAGE_SIZE as usize) + 1],
    }));
    match encode_message(&msg) {
        Err(ProtocolError::Serialization(_)) => {}
        _ => panic!("oversize payload must be refused"),
    }
}

#[test]
fn malformed_payload_is_refused() {
    // 200 is no message ordinal.
    match decode_message(&vec![200u8]) {
        Err(ProtocolError::Deserialization(_)) => {}
        _ => panic!("bad ordinal must be refused"),
    }
    // Truncated Ping payload.
    match decode_message(&vec![0u8, 8u8, 1u8]) {
        Err(ProtocolError::Deserialization(_)) => {}
        _ => panic!("truncated frame must be refused"),
    }
}

#[test]
fn protocol_version_display() {
    assert_eq!(protocol_version().to_display_string(), "0.1");
}

#[test]
fn version_mismatch_is_reported() {
    assert!(verify_version(ProtocolVersion { major: 0, minor: 9 }).is_ok());
    match verify_version(ProtocolVersion { major: 1, minor: 0 }) {
        Err(DaemonError::Protocol(ProtocolError::VersionMismatch { remote, local })) => {
            assert_eq!(remote, "1.0");
            assert_eq!(local, "0.1");
        }
        _ => panic!("major mismatch must be refused"),
    }
}

#[test]
fn machine_id_unique() {
    let a = MachineId::new();
    let b = MachineId::new();
    assert_ne!(a, b);
}

#[test]
fn machine_id_display() {
    let id = MachineId::new();
    let s = id.to_display_string();
    assert!(!s.is_empty());
    // Hyphenated hex: 8-4-4-4-12.
    assert_eq!(s.len(), 36);
    let known = MachineId::from_bits(0x0123456789abcdef0123456789abcdefu128);
    assert_eq!(known.to_display_string(), "01234567-89ab-cdef-0123-456789abcdef");
}
