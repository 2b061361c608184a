//! Session state machine and handshake behaviour.

use cross_control::message::protocol_version;
use cross_control::InputMessage;
use cross_control::ControlMessage;
use cross_control::DaemonError;
use cross_control::DeviceCapability;
use cross_control::DeviceId;
use cross_control::DeviceInfo;
use cross_control::MachineId;
use cross_control::PeerSession;
use cross_control::ProtocolError;
use cross_control::ProtocolVersion;
use cross_control::ScreenEdge;
use cross_control::ScreenGeometry;
use cross_control::SessionState;

#[test]
fn session_state_predicates() {
    assert!(SessionState::Idle.can_enter_controlling());
    assert!(SessionState::Idle.can_enter_controlled());
    assert!(!SessionState::Connected.can_enter_controlling());
    assert!(!SessionState::Controlling.can_enter_controlled());
    assert!(SessionState::Controlling.is_active());
    assert!(SessionState::Controlled.is_active());
    assert!(!SessionState::Idle.is_active());
    assert_eq!(SessionState::Disconnecting.name(), "Disconnecting");
}

#[test]
fn handshake_completes_both_sides() {
    let id_a = MachineId::from_bits(1);
    let id_b = MachineId::from_bits(2);
    let screen = ScreenGeometry::new(1920, 1080);
    let mut sa = PeerSession::new();
    let mut sb = PeerSession::new();
    assert_eq!(sa.state, SessionState::Connected);

    let hello = sa.handshake_initiator_hello(id_a, &"alpha".to_string(), &screen);
    assert_eq!(sa.state, SessionState::HelloSent);

    let welcome = sb
        .handshake_responder(&hello, id_b, &"beta".to_string(), &screen)
        .unwrap();
    assert_eq!(sb.state, SessionState::Idle);
    assert_eq!(sb.machine_id, id_a);
    assert_eq!(sb.name, "alpha");

    sa.handshake_initiator_finish(&welcome).unwrap();
    assert_eq!(sa.state, SessionState::Idle);
    assert_eq!(sa.machine_id, id_b);
    assert_eq!(sa.name, "beta");
}

#[test]
fn handshake_rejects_major_mismatch() {
    let screen = ScreenGeometry::new(1920, 1080);
    let mut sb = PeerSession::new();
    let hello = ControlMessage::Hello {
        version: ProtocolVersion { major: 9, minor: 0 },
        machine_id: MachineId::from_bits(1),
        name: "alpha".to_string(),
        screen,
    };
    match sb.handshake_responder(&hello, MachineId::from_bits(2), &"beta".to_string(), &screen) {
        Err(DaemonError::Protocol(ProtocolError::VersionMismatch { .. })) => {}
        _ => panic!("major version mismatch must be refused"),
    }
    assert_eq!(sb.state, SessionState::Connected);
}

#[test]
fn handshake_rejects_wrong_message() {
    let screen = ScreenGeometry::new(1920, 1080);
    let mut sa = PeerSession::new();
    let _ = sa.handshake_initiator_hello(MachineId::from_bits(1), &"alpha".to_string(), &screen);
    match sa.handshake_initiator_finish(&ControlMessage::Bye) {
        Err(DaemonError::Protocol(ProtocolError::Handshake(_))) => {}
        _ => panic!("a reply other than Welcome must be refused"),
    }
}

#[test]
fn send_enter_only_from_idle() {
    let mut s = PeerSession::new();
    match s.send_enter(ScreenEdge::Right, 10) {
        Err(DaemonError::Protocol(ProtocolError::Handshake(_))) => {}
        _ => panic!("Enter before the handshake must be refused"),
    }
    s.state = SessionState::Idle;
    let msg = s.send_enter(ScreenEdge::Right, 10).unwrap();
    assert_eq!(msg, ControlMessage::Enter { edge: ScreenEdge::Right, position: 10 });
    assert_eq!(s.state, SessionState::Controlling);
    assert!(s.input_open);
    // A second Enter from Controlling is an invalid transition.
    match s.send_enter(ScreenEdge::Right, 10) {
        Err(DaemonError::Protocol(ProtocolError::Handshake(_))) => {}
        _ => panic!("Enter while Controlling must be refused"),
    }
}

#[test]
fn enter_leave_cycle() {
    let mut s = PeerSession::new();
    s.state = SessionState::Idle;
    let ack = s.handle_enter().unwrap();
    assert_eq!(ack, ControlMessage::EnterAck);
    assert_eq!(s.state, SessionState::Controlled);
    s.handle_leave();
    assert_eq!(s.state, SessionState::Idle);

    let _ = s.send_enter(ScreenEdge::Left, 5).unwrap();
    let leave = s.leave(ScreenEdge::Left, 0);
    assert_eq!(leave, ControlMessage::Leave { edge: ScreenEdge::Left, position: 0 });
    assert_eq!(s.state, SessionState::Idle);
    assert!(!s.input_open);
}

#[test]
fn send_input_needs_open_stream() {
    let mut s = PeerSession::new();
    s.state = SessionState::Idle;
    let msg = InputMessage { device_id: DeviceId(1), timestamp_us: 0, events: vec![] };
    assert!(s.send_input(msg.clone()).is_none());
    let _ = s.send_enter(ScreenEdge::Right, 0).unwrap();
    assert_eq!(s.send_input(msg.clone()), Some(msg));
}

#[test]
fn announce_devices_in_order() {
    let s = PeerSession::new();
    let devices = vec![
        DeviceInfo {
            id: DeviceId(1),
            name: "kb".to_string(),
            capabilities: vec![DeviceCapability::Keyboard],
        },
        DeviceInfo {
            id: DeviceId(2),
            name: "mouse".to_string(),
            capabilities: vec![DeviceCapability::RelativeMouse, DeviceCapability::Scroll],
        },
    ];
    let msgs = s.announce_devices(&devices);
    assert_eq!(msgs.len(), 2);
    assert_eq!(msgs[0], ControlMessage::DeviceAnnounce(devices[0].clone()));
    assert_eq!(msgs[1], ControlMessage::DeviceAnnounce(devices[1].clone()));
}

#[test]
fn disconnect_is_terminal() {
    let mut s = PeerSession::new();
    s.state = SessionState::Idle;
    let bye = s.disconnect();
    assert_eq!(bye, ControlMessage::Bye);
    assert_eq!(s.state, SessionState::Disconnecting);
}

#[test]
fn hello_carries_our_identity() {
    let screen = ScreenGeometry::new(800, 600);
    let mut s = PeerSession::new();
    let hello = s.handshake_initiator_hello(MachineId::from_bits(7), &"me".to_string(), &screen);
    assert_eq!(
        hello,
        ControlMessage::Hello {
            version: protocol_version(),
            machine_id: MachineId::from_bits(7),
            name: "me".to_string(),
            screen,
        }
    );
}
