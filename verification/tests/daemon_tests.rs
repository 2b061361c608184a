//! End-to-end scenarios: several daemon engines wired back to back, with
//! every emitted action delivered as the matching event on the other side,
//! the way the runtime's tasks would.

use cross_control::config::ClipboardConfig;
use cross_control::ButtonState;
use cross_control::CapturedEvent;
use cross_control::Config;
use cross_control::Daemon;
use cross_control::DaemonAction;
use cross_control::DaemonConfig;
use cross_control::DaemonEvent;
use cross_control::DeviceCapability;
use cross_control::DeviceId;
use cross_control::DeviceInfo;
use cross_control::IdentityConfig;
use cross_control::InputConfig;
use cross_control::InputEvent;
use cross_control::KeyCode;
use cross_control::MachineId;
use cross_control::MockEmulation;
use cross_control::PeerSession;
use cross_control::Position;
use cross_control::ScreenAdjacency;
use cross_control::ScreenConfig;
use cross_control::ScreenGeometry;

fn test_devices() -> Vec<DeviceInfo> {
    vec![
        DeviceInfo {
            id: DeviceId(1),
            name: "Test Keyboard".to_string(),
            capabilities: vec![DeviceCapability::Keyboard],
        },
        DeviceInfo {
            id: DeviceId(2),
            name: "Test Mouse".to_string(),
            capabilities: vec![DeviceCapability::RelativeMouse, DeviceCapability::Scroll],
        },
    ]
}

fn make_config(
    name: &str,
    screens: Vec<ScreenConfig>,
    screen_adjacency: Vec<ScreenAdjacency>,
) -> Config {
    Config {
        daemon: DaemonConfig::default(),
        identity: IdentityConfig { name: name.to_string() },
        input: InputConfig::default(),
        clipboard: ClipboardConfig::default(),
        screens,
        screen_adjacency,
    }
}

fn screen(name: &str, position: Position) -> ScreenConfig {
    ScreenConfig { name: name.to_string(), address: None, position, fingerprint: None }
}

/// A cluster of engines and their emulation backends, indexed alike.
struct Net {
    daemons: Vec<Daemon>,
    emus: Vec<MockEmulation>,
    ids: Vec<MachineId>,
}

impl Net {
    fn new(configs: Vec<Config>) -> Net {
        let mut daemons = Vec::new();
        let mut emus = Vec::new();
        let mut ids = Vec::new();
        for (i, config) in configs.into_iter().enumerate() {
            let id = MachineId::from_bits((i + 1) as u128);
            let mut d = Daemon::new(config, id);
            d.set_local_devices(test_devices());
            daemons.push(d);
            emus.push(MockEmulation::new());
            ids.push(id);
        }
        Net { daemons, emus, ids }
    }

    fn idx_of(&self, id: MachineId) -> usize {
        self.ids.iter().position(|x| *x == id).expect("unknown machine")
    }

    /// Perform the actions one engine emitted, delivering sends as events on
    /// the target engine and backend calls on the origin's emulation, until
    /// the cluster is quiet.
    fn deliver(&mut self, origin: usize, actions: Vec<DaemonAction>) {
        let mut queue: Vec<(usize, DaemonEvent)> = Vec::new();
        self.enqueue(origin, actions, &mut queue);
        while !queue.is_empty() {
            let (idx, ev) = queue.remove(0);
            let (acts, _) = self.daemons[idx].handle_event(ev);
            self.enqueue(idx, acts, &mut queue);
        }
    }

    fn enqueue(
        &mut self,
        origin: usize,
        actions: Vec<DaemonAction>,
        queue: &mut Vec<(usize, DaemonEvent)>,
    ) {
        for a in actions {
            match a {
                DaemonAction::SendControl { peer, msg } => {
                    let target = self.idx_of(peer);
                    queue.push((
                        target,
                        DaemonEvent::PeerControl { machine_id: self.ids[origin], msg },
                    ));
                }
                DaemonAction::SendInput { peer, msg } => {
                    let target = self.idx_of(peer);
                    queue.push((
                        target,
                        DaemonEvent::PeerInput { machine_id: self.ids[origin], msg },
                    ));
                }
                DaemonAction::CreateDevice { peer, info } => {
                    let virtual_id = self.emus[origin].create_device(info.clone());
                    queue.push((
                        origin,
                        DaemonEvent::DeviceCreated { machine_id: peer, info, virtual_id },
                    ));
                }
                DaemonAction::DestroyDevice { virtual_id } => {
                    self.emus[origin].destroy_device(virtual_id);
                }
                DaemonAction::Inject { virtual_id, event } => {
                    self.emus[origin].inject(virtual_id, event);
                }
                DaemonAction::OpenInputStream { .. }
                | DaemonAction::AcceptInputStream { .. }
                | DaemonAction::ReleaseCapture
                | DaemonAction::CloseConnection { .. } => {}
            }
        }
    }

    fn feed(&mut self, idx: usize, ev: DaemonEvent) {
        let (acts, _) = self.daemons[idx].handle_event(ev);
        self.deliver(idx, acts);
    }

    /// Run the handshake between two engines, `a` initiating, and exchange
    /// device announcements, as the runtime's connector and accept tasks do.
    fn connect(&mut self, a: usize, b: usize) {
        let mut sa = PeerSession::new();
        let mut sb = PeerSession::new();
        let name_a = self.daemons[a].config.identity.name.clone();
        let name_b = self.daemons[b].config.identity.name.clone();
        let screen_a = ScreenGeometry::new(
            self.daemons[a].config.daemon.screen_width,
            self.daemons[a].config.daemon.screen_height,
        );
        let screen_b = ScreenGeometry::new(
            self.daemons[b].config.daemon.screen_width,
            self.daemons[b].config.daemon.screen_height,
        );
        let hello = sa.handshake_initiator_hello(self.ids[a], &name_a, &screen_a);
        let welcome = sb
            .handshake_responder(&hello, self.ids[b], &name_b, &screen_b)
            .expect("responder handshake");
        sa.handshake_initiator_finish(&welcome).expect("initiator handshake");
        let ann_a = sa.announce_devices(&self.daemons[a].local_devices);
        let ann_b = sb.announce_devices(&self.daemons[b].local_devices);
        self.feed(a, DaemonEvent::SessionReady { session: sa });
        self.feed(b, DaemonEvent::SessionReady { session: sb });
        for msg in ann_a {
            self.feed(b, DaemonEvent::PeerControl { machine_id: self.ids[a], msg });
        }
        for msg in ann_b {
            self.feed(a, DaemonEvent::PeerControl { machine_id: self.ids[b], msg });
        }
    }

    fn mouse_move(&mut self, idx: usize, dx: i32, dy: i32) {
        self.feed(
            idx,
            DaemonEvent::CapturedInput(CapturedEvent {
                device_id: DeviceId(2),
                timestamp_us: 1000,
                event: InputEvent::MouseMove { dx, dy },
            }),
        );
    }

    fn key(&mut self, idx: usize, code: KeyCode, state: ButtonState) {
        self.feed(
            idx,
            DaemonEvent::CapturedInput(CapturedEvent {
                device_id: DeviceId(1),
                timestamp_us: 2000,
                event: InputEvent::Key { code, state },
            }),
        );
    }
}

fn pair() -> Net {
    let mut net = Net::new(vec![
        make_config("machine-a", vec![screen("machine-b", Position::Right)], vec![]),
        make_config("machine-b", vec![screen("machine-a", Position::Left)], vec![]),
    ]);
    net.connect(0, 1);
    net
}

#[test]
fn test_handshake() {
    let net = pair();
    let status_a = net.daemons[0].status();
    let status_b = net.daemons[1].status();
    assert_eq!(status_a.session_count, 1);
    assert_eq!(status_b.session_count, 1);
    assert!(status_a.controlling.is_none());
    assert!(status_b.controlling.is_none());
    assert!(status_a.controlled_by.is_none());
    assert!(status_b.controlled_by.is_none());
}

#[test]
fn test_device_announce() {
    let net = pair();
    assert_eq!(net.emus[1].device_count(), 2);
    assert_eq!(net.emus[0].device_count(), 2);
}

#[test]
fn test_enter_leave_flow() {
    let mut net = pair();
    for _ in 0..5 {
        net.mouse_move(0, 500, 0);
    }
    assert_eq!(net.daemons[0].status().controlling, Some(net.ids[1]));
    assert_eq!(net.daemons[1].status().controlled_by, Some(net.ids[0]));

    net.key(0, KeyCode::LeftCtrl, ButtonState::Pressed);
    net.key(0, KeyCode::LeftShift, ButtonState::Pressed);
    net.key(0, KeyCode::Escape, ButtonState::Pressed);

    assert!(net.daemons[0].status().controlling.is_none());
    assert!(net.daemons[1].status().controlled_by.is_none());
    // The cursor is re-centred on release.
    assert_eq!(net.daemons[0].status().cursor_x, 960);
    assert_eq!(net.daemons[0].status().cursor_y, 540);
}

#[test]
fn test_input_forwarding() {
    let mut net = pair();
    for _ in 0..5 {
        net.mouse_move(0, 500, 0);
    }
    assert_eq!(net.daemons[0].status().controlling, Some(net.ids[1]));

    for _ in 0..5 {
        net.key(0, KeyCode::KeyA, ButtonState::Pressed);
        net.key(0, KeyCode::KeyA, ButtonState::Released);
    }
    let injected = net.emus[1].injected_events();
    assert!(injected.iter().any(|e| {
        matches!(e.event, InputEvent::Key { code: KeyCode::KeyA, state: ButtonState::Pressed })
    }));
}

#[test]
fn test_hotkey_release() {
    let mut net = pair();
    for _ in 0..5 {
        net.mouse_move(0, 500, 0);
    }
    assert!(net.daemons[0].status().controlling.is_some());

    net.key(0, KeyCode::LeftCtrl, ButtonState::Pressed);
    net.key(0, KeyCode::LeftShift, ButtonState::Pressed);
    net.key(0, KeyCode::Escape, ButtonState::Pressed);

    assert!(net.daemons[0].status().controlling.is_none());
    assert!(net.daemons[1].status().controlled_by.is_none());
}

/// Three screens: A in the centre, B above it, C to its right.
fn three_screens() -> Net {
    let mut net = Net::new(vec![
        make_config(
            "A",
            vec![screen("B", Position::Above), screen("C", Position::Right)],
            vec![],
        ),
        make_config("B", vec![screen("A", Position::Below)], vec![]),
        make_config("C", vec![screen("A", Position::Left)], vec![]),
    ]);
    net.connect(0, 1);
    net.connect(0, 2);
    net
}

#[test]
fn test_three_screens_a_to_b_above() {
    let mut net = three_screens();
    assert_eq!(net.daemons[0].status().session_count, 2);

    for _ in 0..10 {
        net.mouse_move(0, 0, -500);
    }
    assert_eq!(net.daemons[0].status().controlling, Some(net.ids[1]));
    assert_eq!(net.daemons[1].status().controlled_by, Some(net.ids[0]));
    let status_c = net.daemons[2].status();
    assert!(status_c.controlling.is_none());
    assert!(status_c.controlled_by.is_none());
}

#[test]
fn test_three_screens_a_to_c_right() {
    let mut net = three_screens();
    for _ in 0..10 {
        net.mouse_move(0, 500, 0);
    }
    assert_eq!(net.daemons[0].status().controlling, Some(net.ids[2]));
    assert_eq!(net.daemons[2].status().controlled_by, Some(net.ids[0]));
    let status_b = net.daemons[1].status();
    assert!(status_b.controlling.is_none());
    assert!(status_b.controlled_by.is_none());
}

#[test]
fn test_three_screens_cursor_returns_from_b_to_a() {
    let mut net = three_screens();
    // Push A's cursor up into B.
    for _ in 0..10 {
        net.mouse_move(0, 0, -500);
    }
    assert_eq!(net.daemons[0].status().controlling, Some(net.ids[1]));

    // The cursor arrives on B's bottom edge; that edge is suppressed until
    // the cursor moves off it, so move up once before pushing back down.
    net.mouse_move(0, 0, -500);
    for _ in 0..10 {
        net.mouse_move(0, 0, 500);
        if net.daemons[0].status().controlling.is_none() {
            break;
        }
    }
    // B's reverse barrier fires at its bottom edge; the adjacency for
    // (B, Bottom) is A itself, so control returns rather than hopping on.
    assert!(net.daemons[0].status().controlling.is_none());
    assert!(net.daemons[1].status().controlled_by.is_none());
}

#[test]
fn test_multi_hop_a_to_b_to_c() {
    // A — B with C below B; A knows the remote edge (B, Below) -> C.
    let mut net = Net::new(vec![
        make_config(
            "A",
            vec![screen("B", Position::Right), screen("C", Position::Below)],
            vec![ScreenAdjacency {
                screen: "B".to_string(),
                neighbor: "C".to_string(),
                position: Position::Below,
            }],
        ),
        make_config(
            "B",
            vec![screen("A", Position::Left), screen("C", Position::Below)],
            vec![],
        ),
        make_config(
            "C",
            vec![screen("B", Position::Above), screen("A", Position::Left)],
            vec![],
        ),
    ]);
    net.connect(0, 1);
    net.connect(0, 2);
    net.connect(1, 2);

    // Step 1: A's cursor goes right, into B.
    for _ in 0..10 {
        net.mouse_move(0, 500, 0);
    }
    assert_eq!(net.daemons[0].status().controlling, Some(net.ids[1]));
    assert_eq!(net.daemons[1].status().controlled_by, Some(net.ids[0]));

    // Step 2: push down. B's bottom edge fires, B sends Leave{Bottom} to A,
    // and A's adjacency (B, Bottom) -> C transfers control onward to C.
    for _ in 0..10 {
        net.mouse_move(0, 0, 500);
        if net.daemons[0].status().controlling == Some(net.ids[2]) {
            break;
        }
    }
    assert_eq!(net.daemons[0].status().controlling, Some(net.ids[2]));
    assert_eq!(net.daemons[2].status().controlled_by, Some(net.ids[0]));
    assert!(net.daemons[1].status().controlled_by.is_none());
}

#[test]
fn peer_disconnect_destroys_devices() {
    let mut net = pair();
    assert_eq!(net.emus[1].device_count(), 2);
    // B loses its peer A: every virtual device B created for A's devices
    // must leave the emulation.
    let a_id = net.ids[0];
    net.feed(1, DaemonEvent::PeerDisconnected(a_id));
    assert_eq!(net.emus[1].device_count(), 0);
    assert_eq!(net.daemons[1].status().session_count, 0);
}

#[test]
fn device_gone_destroys_one_device() {
    let mut net = pair();
    assert_eq!(net.emus[1].device_count(), 2);
    let a_id = net.ids[0];
    net.feed(
        1,
        DaemonEvent::PeerControl {
            machine_id: a_id,
            msg: cross_control::ControlMessage::DeviceGone { device_id: DeviceId(1) },
        },
    );
    assert_eq!(net.emus[1].device_count(), 1);
}

#[test]
fn ping_is_answered_with_pong() {
    let mut net = pair();
    let a_id = net.ids[0];
    let (acts, _) = net.daemons[1].handle_event(DaemonEvent::PeerControl {
        machine_id: a_id,
        msg: cross_control::ControlMessage::Ping { seq: 7 },
    });
    assert_eq!(acts.len(), 1);
    match &acts[0] {
        DaemonAction::SendControl { peer, msg } => {
            assert_eq!(*peer, a_id);
            assert_eq!(*msg, cross_control::ControlMessage::Pong { seq: 7 });
        }
        _ => panic!("a Ping must be answered with a Pong"),
    }
}

#[test]
fn input_from_non_controller_is_dropped() {
    let mut net = pair();
    let a_id = net.ids[0];
    // B is not controlled by anyone; input from A must be ignored.
    net.feed(
        1,
        DaemonEvent::PeerInput {
            machine_id: a_id,
            msg: cross_control::InputMessage {
                device_id: DeviceId(1),
                timestamp_us: 0,
                events: vec![InputEvent::Key {
                    code: KeyCode::KeyA,
                    state: ButtonState::Pressed,
                }],
            },
        },
    );
    assert!(net.emus[1].injected_events().is_empty());
}

#[test]
fn cursor_stays_inside_screen() {
    let mut net = Net::new(vec![make_config("solo", vec![], vec![])]);
    for _ in 0..5 {
        net.mouse_move(0, 100_000, 100_000);
    }
    let s = net.daemons[0].status();
    assert_eq!((s.cursor_x, s.cursor_y), (1919, 1079));
    for _ in 0..5 {
        net.mouse_move(0, -2_000_000, -2_000_000);
    }
    let s = net.daemons[0].status();
    assert_eq!((s.cursor_x, s.cursor_y), (0, 0));
    net.mouse_move(0, i32::MAX, i32::MIN);
    let s = net.daemons[0].status();
    assert_eq!((s.cursor_x, s.cursor_y), (1919, 0));
}

#[test]
fn adjacency_lookup_has_generated_inverse() {
    let net = Net::new(vec![make_config(
        "A",
        vec![screen("B", Position::Right)],
        vec![],
    )]);
    let d = &net.daemons[0];
    assert_eq!(
        d.lookup_adjacency(&"A".to_string(), cross_control::ScreenEdge::Right),
        Some("B".to_string())
    );
    assert_eq!(
        d.lookup_adjacency(&"B".to_string(), cross_control::ScreenEdge::Left),
        Some("A".to_string())
    );
    assert_eq!(d.lookup_adjacency(&"B".to_string(), cross_control::ScreenEdge::Right), None);
}

#[test]
fn shutdown_says_goodbye_to_every_peer() {
    let mut net = pair();
    let acts = net.daemons[0].shutdown();
    assert_eq!(acts.len(), 2);
    match &acts[0] {
        DaemonAction::SendControl { peer, msg } => {
            assert_eq!(*peer, net.ids[1]);
            assert_eq!(*msg, cross_control::ControlMessage::Bye);
        }
        _ => panic!("shutdown must send Bye"),
    }
    match &acts[1] {
        DaemonAction::CloseConnection { peer } => assert_eq!(*peer, net.ids[1]),
        _ => panic!("shutdown must close the connection"),
    }
    assert_eq!(net.daemons[0].status().session_count, 0);
}

#[test]
fn enter_ack_without_session_is_ignored() {
    let mut net = pair();
    let stranger = MachineId::from_bits(99);
    net.feed(
        0,
        DaemonEvent::PeerControl {
            machine_id: stranger,
            msg: cross_control::ControlMessage::EnterAck,
        },
    );
    // Control is never latched for a machine without a session.
    assert!(net.daemons[0].status().controlling.is_none());
}

#[test]
fn enter_while_controlling_is_ignored() {
    // Three screens; A controls B, then C tries to enter A. A daemon never
    // simultaneously drives a remote and is driven by one.
    let mut net = three_screens();
    for _ in 0..10 {
        net.mouse_move(0, 0, -500);
    }
    assert_eq!(net.daemons[0].status().controlling, Some(net.ids[1]));

    let c_id = net.ids[2];
    net.feed(
        0,
        DaemonEvent::PeerControl {
            machine_id: c_id,
            msg: cross_control::ControlMessage::Enter {
                edge: cross_control::ScreenEdge::Right,
                position: 100,
            },
        },
    );
    let s = net.daemons[0].status();
    assert_eq!(s.controlling, Some(net.ids[1]));
    assert!(s.controlled_by.is_none());
}

#[test]
fn announced_device_is_mapped_and_exists() {
    // Every announced device, with no withdrawal, has a mapping in the
    // session and a live virtual device in the emulation.
    let net = pair();
    let a_idx = net.daemons[1]
        .sessions
        .iter()
        .position(|s| s.machine_id == net.ids[0])
        .expect("B has a session with A");
    let session = &net.daemons[1].sessions[a_idx];
    for device in [DeviceId(1), DeviceId(2)] {
        let vid = session.device_map.get(device).expect("announced device is mapped");
        assert!(net.emus[1].has_device(vid));
    }
}

#[test]
fn leave_with_adjacency_back_to_self_warps_cursor() {
    // A's adjacency explicitly routes (machine-b, Bottom) back to A itself:
    // on that Leave the cursor returns to A's top edge, and no Enter goes
    // anywhere.
    let mut net = Net::new(vec![
        make_config(
            "machine-a",
            vec![screen("machine-b", Position::Right)],
            vec![ScreenAdjacency {
                screen: "machine-b".to_string(),
                neighbor: "machine-a".to_string(),
                position: Position::Below,
            }],
        ),
        make_config("machine-b", vec![screen("machine-a", Position::Left)], vec![]),
    ]);
    net.connect(0, 1);
    for _ in 0..5 {
        net.mouse_move(0, 500, 0);
    }
    assert_eq!(net.daemons[0].status().controlling, Some(net.ids[1]));

    let b_id = net.ids[1];
    net.feed(
        0,
        DaemonEvent::PeerControl {
            machine_id: b_id,
            msg: cross_control::ControlMessage::Leave {
                edge: cross_control::ScreenEdge::Bottom,
                position: 300,
            },
        },
    );
    let s = net.daemons[0].status();
    assert!(s.controlling.is_none());
    assert!(s.controlled_by.is_none());
    // Opposite of Bottom is Top: the cursor lands at (300, 0).
    assert_eq!((s.cursor_x, s.cursor_y), (300, 0));
}
