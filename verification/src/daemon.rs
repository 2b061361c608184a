//! Core daemon engine.
//!
//! The engine is a pure state machine: every decision the daemon makes is a
//! function from its state and one event to its next state and a list of
//! actions. The surrounding runtime owns the event queue and the I/O; it
//! feeds events in arrival order, performs the returned actions, and feeds
//! the outcomes of asynchronous actions (device creation, send failures)
//! back in as further events. Processing events one at a time gives the
//! engine a sequential consistency model for all of its mutable state.

use vstd::prelude::*;

use crate::config::Config;
use crate::device::DeviceId;
use crate::device::DeviceInfo;
use crate::device::VirtualDeviceId;
use crate::event::spec_keycode_name;
use crate::event::CapturedEvent;
use crate::event::InputEvent;
use crate::event::KeyCode;
use crate::machine::MachineId;
use crate::message::ControlMessage;
use crate::message::ControlMessageV;
use crate::message::InputMessage;
use crate::screen::spec_local_edge;
use crate::screen::spec_opposite;
use crate::screen::ScreenEdge;
use crate::screen::ScreenGeometry;
use crate::session::PeerSession;

verus! {

/// Events processed by the daemon's decision loop, in arrival order.
pub enum DaemonEvent {
    /// A captured local input event.
    CapturedInput(CapturedEvent),
    /// A control message from a peer.
    PeerControl { machine_id: MachineId, msg: ControlMessage },
    /// An input message from a peer.
    PeerInput { machine_id: MachineId, msg: InputMessage },
    /// A peer disconnected.
    PeerDisconnected(MachineId),
    /// A fully handshaked session is ready (from a background task).
    SessionReady { session: PeerSession },
    /// The emulation backend finished creating a virtual device that was
    /// requested by a `CreateDevice` action.
    DeviceCreated { machine_id: MachineId, info: DeviceInfo, virtual_id: VirtualDeviceId },
    /// A send on a peer's input stream failed.
    InputSendFailed(MachineId),
    /// Shutdown signal.
    Shutdown,
}

/// Actions the runtime performs on the engine's behalf, in list order.
#[derive(Debug, Clone, PartialEq, Eq)]
pub enum DaemonAction {
    /// Open the outbound input stream to a peer (before the `Enter` that
    /// follows it in the same list is transmitted).
    OpenInputStream { peer: MachineId },
    /// Accept the inbound input stream from a peer, in a background task,
    /// and pump its messages back in as `PeerInput` events.
    AcceptInputStream { peer: MachineId },
    /// Transmit a control message to a peer.
    SendControl { peer: MachineId, msg: ControlMessage },
    /// Transmit an input message on the outbound input stream to a peer.
    SendInput { peer: MachineId, msg: InputMessage },
    /// Ask the emulation backend for a virtual device mirroring `info`;
    /// report success back as a `DeviceCreated` event.
    CreateDevice { peer: MachineId, info: DeviceInfo },
    /// Destroy a virtual device in the emulation backend.
    DestroyDevice { virtual_id: VirtualDeviceId },
    /// Inject an event into a virtual device.
    Inject { virtual_id: VirtualDeviceId, event: InputEvent },
    /// Release the physical capture so the local desktop regains input.
    ReleaseCapture,
    /// Close the transport connection to a peer.
    CloseConnection { peer: MachineId },
}

/// Observable daemon status, published after every handled event.
#[derive(Debug, Clone, Copy, PartialEq, Eq)]
pub struct DaemonStatus {
    pub controlling: Option<MachineId>,
    pub controlled_by: Option<MachineId>,
    pub session_count: usize,
    pub cursor_x: i32,
    pub cursor_y: i32,
}

impl Default for DaemonStatus {
    fn default() -> (r: Self)
        ensures
            r.controlling is None,
            r.controlled_by is None,
            r.session_count == 0,
            r.cursor_x == 960,
            r.cursor_y == 540,
    {
        DaemonStatus {
            controlling: None,
            controlled_by: None,
            session_count: 0,
            cursor_x: 960,
            cursor_y: 540,
        }
    }
}

/// One directed edge of the screen adjacency graph:
/// leaving `from` across `edge` arrives at `to`.
#[derive(Debug, Clone, PartialEq, Eq)]
pub struct AdjEdge {
    pub from: String,
    pub edge: ScreenEdge,
    pub to: String,
}

/// The lookup key of an adjacency edge.
pub open spec fn adj_key(e: AdjEdge) -> (Seq<char>, ScreenEdge) {
    (e.from@, e.edge)
}

/// The map denoted by an adjacency edge list; later entries win.
pub open spec fn adj_map(s: Seq<AdjEdge>) -> Map<(Seq<char>, ScreenEdge), Seq<char>>
    decreases s.len(),
{
    if s.len() == 0 {
        Map::empty()
    } else {
        adj_map(s.drop_last()).insert(adj_key(s.last()), s.last().to@)
    }
}

/// A key present in the map is carried by some edge.
proof fn lemma_contained_has_entry(s: Seq<AdjEdge>, k: (Seq<char>, ScreenEdge))
    requires
        adj_map(s).contains_key(k),
    ensures
        exists|i: int| 0 <= i < s.len() && adj_key(#[trigger] s[i]) == k,
    decreases s.len(),
{
    if s.len() > 0 {
        if k == adj_key(s.last()) {
            assert(adj_key(#[trigger] s[s.len() - 1]) == k);
        } else {
            lemma_contained_has_entry(s.drop_last(), k);
            let i = choose|i: int|
                0 <= i < s.drop_last().len() && adj_key(#[trigger] s.drop_last()[i]) == k;
            assert(s.drop_last()[i] == s[i]);
            assert(adj_key(#[trigger] s[i]) == k);
        }
    }
}

/// Every edge's key is in the map.
proof fn lemma_entry_in_map(s: Seq<AdjEdge>, i: int)
    requires
        0 <= i < s.len(),
    ensures
        adj_map(s).contains_key(adj_key(s[i])),
    decreases s.len(),
{
    if i < s.len() - 1 {
        lemma_entry_in_map(s.drop_last(), i);
        assert(s.drop_last()[i] == s[i]);
    }
}

/// The last edge carrying a key decides its value.
proof fn lemma_last_entry_value(s: Seq<AdjEdge>, i: int)
    requires
        0 <= i < s.len(),
        forall|j: int| i < j < s.len() ==> adj_key(#[trigger] s[j]) != adj_key(s[i]),
    ensures
        adj_map(s).contains_key(adj_key(s[i])),
        adj_map(s)[adj_key(s[i])] == s[i].to@,
    decreases s.len(),
{
    lemma_entry_in_map(s, i);
    if i < s.len() - 1 {
        assert(adj_key(s[s.len() - 1]) != adj_key(s[i]));
        assert forall|j: int|
            i < j < s.drop_last().len() implies adj_key(#[trigger] s.drop_last()[j]) != adj_key(
            s.drop_last()[i],
        ) by {
            assert(s.drop_last()[j] == s[j]);
            assert(s.drop_last()[i] == s[i]);
        }
        assert(s.drop_last()[i] == s[i]);
        lemma_last_entry_value(s.drop_last(), i);
    }
}

/// With coherent edges, every edge's key maps to that edge's target.
proof fn lemma_entry_value_coherent(s: Seq<AdjEdge>, i: int)
    requires
        edges_coherent(s),
        0 <= i < s.len(),
    ensures
        adj_map(s).contains_key(adj_key(s[i])),
        adj_map(s)[adj_key(s[i])] == s[i].to@,
{
    lemma_entry_in_map(s, i);
    lemma_last_wins_index(s, i);
    let iw = choose|iw: int|
        0 <= iw < s.len() && adj_key(#[trigger] s[iw]) == adj_key(s[i]) && (forall|j: int|
            iw < j < s.len() ==> adj_key(#[trigger] s[j]) != adj_key(s[iw]));
    lemma_last_entry_value(s, iw);
}

/// Every edge's inverse is in the list too.
pub open spec fn edges_paired(s: Seq<AdjEdge>) -> bool {
    forall|i: int|
        0 <= i < s.len() ==> exists|j: int|
            0 <= j < s.len() && (#[trigger] s[j]).from@ == (#[trigger] s[i]).to@ && s[j].edge
                == spec_opposite(s[i].edge) && s[j].to@ == s[i].from@
}

/// No two edges leave the same screen across the same edge towards
/// different neighbours.
pub open spec fn edges_coherent(s: Seq<AdjEdge>) -> bool {
    forall|i: int, j: int|
        0 <= i < s.len() && 0 <= j < s.len() && adj_key(#[trigger] s[i]) == adj_key(
            #[trigger] s[j],
        ) ==> s[i].to@ == s[j].to@
}

/// The adjacency map is symmetric: if leaving `a` across `e` arrives at
/// `b`, then leaving `b` across the opposite edge arrives back at `a`.
pub open spec fn adjacency_symmetric(m: Map<(Seq<char>, ScreenEdge), Seq<char>>) -> bool {
    forall|a: Seq<char>, e: ScreenEdge|
        #[trigger] m.contains_key((a, e)) ==> m.contains_key((m[(a, e)], spec_opposite(e)))
            && m[(m[(a, e)], spec_opposite(e))] == a
}

/// Law: building the adjacency graph from entries whose inverses are all
/// present, and which do not contradict one another, yields a symmetric map.
/// The engine's construction generates the inverse of every configured edge,
/// so `edges_paired` always holds of what it builds; `edges_coherent` is the
/// configuration's obligation, and a configuration that routes one screen
/// edge to two different neighbours falls outside it.
#[verifier::rlimit(100)]
#[verifier::spinoff_prover]
pub proof fn lemma_adjacency_symmetric(s: Seq<AdjEdge>)
    requires
        edges_paired(s),
        edges_coherent(s),
    ensures
        adjacency_symmetric(adj_map(s)),
{
    let m = adj_map(s);
    assert forall|a: Seq<char>, e: ScreenEdge| #[trigger]
        m.contains_key((a, e)) implies m.contains_key((m[(a, e)], spec_opposite(e))) && m[(m[(
        a,
        e,
    )], spec_opposite(e))] == a by {
        lemma_contained_has_entry(s, (a, e));
        let i = choose|i: int| 0 <= i < s.len() && adj_key(#[trigger] s[i]) == (a, e);
        lemma_entry_value_coherent(s, i);
        assert(s[i].from@ == a && s[i].edge == e);
        assert(m[(a, e)] == s[i].to@);
        let j = choose|j: int|
            0 <= j < s.len() && (#[trigger] s[j]).from@ == s[i].to@ && s[j].edge == spec_opposite(
                s[i].edge,
            ) && s[j].to@ == s[i].from@;
        lemma_entry_value_coherent(s, j);
        assert(adj_key(s[j]) == (s[i].to@, spec_opposite(e)));
        assert(m.contains_key((s[i].to@, spec_opposite(e))));
        assert(m[(s[i].to@, spec_opposite(e))] == s[j].to@);
        assert(s[j].to@ == a);
    }
}

/// Among the edges sharing a key, there is a last one.
proof fn lemma_last_wins_index(s: Seq<AdjEdge>, i: int)
    requires
        0 <= i < s.len(),
    ensures
        exists|iw: int|
            0 <= iw < s.len() && adj_key(#[trigger] s[iw]) == adj_key(s[i]) && (forall|j: int|
                iw < j < s.len() ==> adj_key(#[trigger] s[j]) != adj_key(s[iw])),
    decreases s.len() - i,
{
    if exists|j: int| i < j < s.len() && adj_key(#[trigger] s[j]) == adj_key(s[i]) {
        let j = choose|j: int| i < j < s.len() && adj_key(#[trigger] s[j]) == adj_key(s[i]);
        lemma_last_wins_index(s, j);
        let iw = choose|iw: int|
            0 <= iw < s.len() && adj_key(#[trigger] s[iw]) == adj_key(s[j]) && (forall|l: int|
                iw < l < s.len() ==> adj_key(#[trigger] s[l]) != adj_key(s[iw]));
        assert(adj_key(s[iw]) == adj_key(s[i]));
    } else {
        assert(adj_key(s[i]) == adj_key(s[i]));
    }
}

/// The clamp bound of a screen dimension as a cursor coordinate: the
/// dimension itself, saturated into `i32`.
pub open spec fn eff_dim(d: u32) -> int {
    if d > i32::MAX as u32 {
        i32::MAX as int
    } else {
        d as int
    }
}

/// The centre coordinate of a dimension, kept inside the clamp range.
pub open spec fn spec_centre(d: u32) -> int {
    if d as int / 2 >= eff_dim(d) {
        eff_dim(d) - 1
    } else {
        d as int / 2
    }
}

/// Whether some pressed key, other than an `Unknown` code, carries this
/// stable name.
pub open spec fn name_pressed(pressed: Seq<KeyCode>, name: Seq<char>) -> bool {
    exists|j: int|
        0 <= j < pressed.len() && !((#[trigger] pressed[j]) is Unknown) && spec_keycode_name(
            pressed[j],
        ) == name
}

/// The pressed-key set after one input event: a press adds the key if
/// absent, a release removes it, anything else leaves the set alone.
pub open spec fn spec_update_hotkey(s: Seq<KeyCode>, ev: InputEvent) -> Seq<KeyCode> {
    match ev {
        InputEvent::Key { code, state } => match state {
            crate::event::ButtonState::Pressed => if key_in(s, code) {
                s
            } else {
                s.push(code)
            },
            crate::event::ButtonState::Released => s.filter(|k: KeyCode| k != code),
        },
        _ => s,
    }
}

/// Whether every name of a chord is carried by some pressed key.
pub open spec fn chord_satisfied(names: Seq<String>, pressed: Seq<KeyCode>) -> bool {
    forall|i: int| 0 <= i < names.len() ==> name_pressed(pressed, (#[trigger] names[i])@)
}

/// Whether a key code is in a pressed set.
pub open spec fn key_in(s: Seq<KeyCode>, k: KeyCode) -> bool {
    exists|j: int| 0 <= j < s.len() && s[j] == k
}

/// Whether some session in the list belongs to this remote machine.
pub open spec fn has_session_seq(s: Seq<PeerSession>, id: MachineId) -> bool {
    exists|i: int| 0 <= i < s.len() && (#[trigger] s[i]).machine_id == id
}

/// The index of the session belonging to this remote machine.
pub open spec fn session_index_seq(s: Seq<PeerSession>, id: MachineId) -> int {
    choose|i: int| 0 <= i < s.len() && (#[trigger] s[i]).machine_id == id
}

/// The session belonging to this remote machine.
pub open spec fn session_for_seq(s: Seq<PeerSession>, id: MachineId) -> PeerSession {
    s[session_index_seq(s, id)]
}

/// No two sessions share a remote machine.
pub open spec fn sessions_unique_seq(s: Seq<PeerSession>) -> bool {
    forall|i: int, j: int|
        0 <= i < j < s.len() ==> (#[trigger] s[i]).machine_id != (#[trigger] s[j]).machine_id
}

/// Every session in the list is internally well-formed.
pub open spec fn sessions_wf_seq(s: Seq<PeerSession>) -> bool {
    forall|i: int| 0 <= i < s.len() ==> (#[trigger] s[i]).wf()
}

/// Replacing one session with another for the same remote machine keeps the
/// list's shape: uniqueness, membership, indices, and the other sessions.
pub proof fn lemma_session_seq_update(s: Seq<PeerSession>, i: int, s2: PeerSession)
    requires
        sessions_unique_seq(s),
        0 <= i < s.len(),
        s2.machine_id == s[i].machine_id,
    ensures
        sessions_unique_seq(s.update(i, s2)),
        forall|p: MachineId|
            #[trigger] has_session_seq(s.update(i, s2), p) <==> has_session_seq(s, p),
        forall|p: MachineId| #[trigger]
            has_session_seq(s, p) ==> session_index_seq(s.update(i, s2), p) == session_index_seq(
                s,
                p,
            ) && 0 <= session_index_seq(s, p) < s.len() && s[session_index_seq(s, p)].machine_id
                == p,
        session_index_seq(s, s[i].machine_id) == i,
        session_for_seq(s.update(i, s2), s2.machine_id) == s2,
        forall|p: MachineId| #[trigger]
            has_session_seq(s, p) && p != s[i].machine_id ==> session_for_seq(s.update(i, s2), p)
                == session_for_seq(s, p),
        sessions_wf_seq(s) && s2.wf() ==> sessions_wf_seq(s.update(i, s2)),
{
    let s3 = s.update(i, s2);
    assert forall|p: MachineId| #[trigger]
        has_session_seq(s3, p) implies has_session_seq(s, p) by {
        let j = choose|j: int| 0 <= j < s3.len() && (#[trigger] s3[j]).machine_id == p;
        if j == i {
            assert((#[trigger] s[i]).machine_id == p);
        } else {
            assert((#[trigger] s[j]).machine_id == p);
        }
    }
    assert forall|p: MachineId| has_session_seq(s, p) implies #[trigger] has_session_seq(
        s3,
        p,
    ) by {
        let j = choose|j: int| 0 <= j < s.len() && (#[trigger] s[j]).machine_id == p;
        if j == i {
            assert((#[trigger] s3[i]).machine_id == p);
        } else {
            assert((#[trigger] s3[j]).machine_id == p);
        }
    }
    assert forall|p: MachineId| #[trigger]
        has_session_seq(s, p) implies session_index_seq(s3, p) == session_index_seq(s, p) && 0
        <= session_index_seq(s, p) < s.len() && s[session_index_seq(s, p)].machine_id == p by {
        let j = session_index_seq(s, p);
        assert(0 <= j < s.len() && s[j].machine_id == p);
        let j3 = session_index_seq(s3, p);
        assert(has_session_seq(s3, p));
        assert(0 <= j3 < s3.len() && s3[j3].machine_id == p);
        if j3 != j {
            if j3 == i {
                assert(s[j3].machine_id == s2.machine_id);
            } else {
                assert(s[j3].machine_id == p);
            }
            if j < j3 {
                assert(s[j].machine_id != s[j3].machine_id);
            } else {
                assert(s[j3].machine_id != s[j].machine_id);
            }
        }
    }
    assert(0 <= i < s.len() && s[i].machine_id == s[i].machine_id);
    assert(has_session_seq(s, s[i].machine_id));
    let j = session_index_seq(s, s[i].machine_id);
    assert(0 <= j < s.len() && s[j].machine_id == s[i].machine_id);
    if j != i {
        if j < i {
            assert(s[j].machine_id != s[i].machine_id);
        } else {
            assert(s[i].machine_id != s[j].machine_id);
        }
    }
    assert(session_index_seq(s3, s2.machine_id) == i);
}

/// The core daemon engine: all of the daemon's mutable state, and no I/O.
#[derive(Debug)]
pub struct Daemon {
    /// The configuration the daemon was started with.
    pub config: Config,
    /// This machine's identity.
    pub machine_id: MachineId,
    /// This machine's screen.
    pub screen: ScreenGeometry,
    /// All live peer sessions, at most one per remote machine.
    pub sessions: Vec<PeerSession>,
    /// The local devices announced to new peers.
    pub local_devices: Vec<DeviceInfo>,
    /// Virtual cursor position for barrier detection.
    pub cursor_x: i32,
    pub cursor_y: i32,
    /// Which peer we are currently controlling, if any.
    pub controlling: Option<MachineId>,
    /// Which peer is currently controlling us, if any.
    pub controlled_by: Option<MachineId>,
    /// The edge the cursor entered on while we are controlled; suppresses
    /// the reverse barrier on that edge until the cursor moves off it, so a
    /// cursor that arrives on an edge does not bounce straight back.
    pub entry_edge: Option<ScreenEdge>,
    /// The set of currently pressed keys, for hot-key matching.
    pub hotkey_pressed: Vec<KeyCode>,
    /// The full screen adjacency graph.
    pub adjacency: Vec<AdjEdge>,
}

impl Daemon {
    /// The screen has at least one pixel in each dimension.
    pub open spec fn screen_valid(self) -> bool {
        self.screen.width >= 1 && self.screen.height >= 1
    }

    /// The cursor is inside the screen box.
    pub open spec fn cursor_in_bounds(self) -> bool {
        0 <= self.cursor_x < eff_dim(self.screen.width) && 0 <= self.cursor_y < eff_dim(
            self.screen.height,
        )
    }

    /// At most one of `controlling` and `controlled_by` is set: a daemon
    /// never simultaneously drives a remote and is driven by one.
    pub open spec fn focus_exclusive(self) -> bool {
        !(self.controlling is Some && self.controlled_by is Some)
    }

    /// Whether a session with this remote machine exists.
    pub open spec fn has_session(self, id: MachineId) -> bool {
        has_session_seq(self.sessions@, id)
    }

    /// The index of the session with this remote machine.
    pub open spec fn session_index(self, id: MachineId) -> int {
        session_index_seq(self.sessions@, id)
    }

    /// The session with this remote machine.
    pub open spec fn session_for(self, id: MachineId) -> PeerSession {
        session_for_seq(self.sessions@, id)
    }

    /// If we control a peer, its session exists and is in `Controlling`.
    pub open spec fn controlling_consistent(self) -> bool {
        self.controlling matches Some(p) ==> self.has_session(p) && self.session_for(
            p,
        ).state is Controlling
    }

    /// If a peer controls us, its session exists and is in `Controlled`.
    pub open spec fn controlled_consistent(self) -> bool {
        self.controlled_by matches Some(p) ==> self.has_session(p) && self.session_for(
            p,
        ).state is Controlled
    }

    /// No two sessions share a remote machine.
    pub open spec fn sessions_unique(self) -> bool {
        sessions_unique_seq(self.sessions@)
    }

    /// Every session is internally well-formed.
    pub open spec fn sessions_wf(self) -> bool {
        sessions_wf_seq(self.sessions@)
    }

    /// The engine invariant, preserved by every event handler.
    pub open spec fn wf(self) -> bool {
        &&& self.screen_valid()
        &&& self.cursor_in_bounds()
        &&& self.focus_exclusive()
        &&& self.controlling_consistent()
        &&& self.controlled_consistent()
        &&& self.sessions_unique()
        &&& self.sessions_wf()
    }

    /// Whether the configured release hot-key chord is a subset of the
    /// currently pressed keys, matched by stable key names.
    pub open spec fn release_hotkey_satisfied(self) -> bool {
        chord_satisfied(self.config.input.release_hotkey@, self.hotkey_pressed@)
    }

    /// Create a new engine: cursor at the screen centre, no sessions, no
    /// focus, and the adjacency graph built from the configuration with the
    /// symmetric inverse of every entry generated first, so that an explicit
    /// entry wins any conflict with a generated one.
    pub fn new(config: Config, machine_id: MachineId) -> (r: Self)
        requires
            config.daemon.screen_width >= 1,
            config.daemon.screen_height >= 1,
        ensures
            r.wf(),
            r.config == config,
            r.machine_id == machine_id,
            r.screen == (ScreenGeometry {
                width: config.daemon.screen_width,
                height: config.daemon.screen_height,
                x: 0,
                y: 0,
            }),
            r.sessions@.len() == 0,
            r.local_devices@.len() == 0,
            r.cursor_x == spec_centre(config.daemon.screen_width),
            r.cursor_y == spec_centre(config.daemon.screen_height),
            r.controlling is None,
            r.controlled_by is None,
            r.entry_edge is None,
            r.hotkey_pressed@.len() == 0,
            edges_paired(r.adjacency@),
            r.adjacency@.len() == 2 * (config.screens@.len() + config.screen_adjacency@.len()),
            adjacency_from_config(r.adjacency@, config),
    {
        let screen = ScreenGeometry::new(config.daemon.screen_width, config.daemon.screen_height);
        let cursor_x = centre(config.daemon.screen_width);
        let cursor_y = centre(config.daemon.screen_height);
        let ghost ns = config.screens@.len() as int;
        let ghost na = config.screen_adjacency@.len() as int;

        let mut adjacency: Vec<AdjEdge> = Vec::new();
        // Generated inverses of our own neighbours.
        let mut i: usize = 0;
        while i < config.screens.len()
            invariant
                ns == config.screens@.len() as int,
                na == config.screen_adjacency@.len() as int,
                i <= config.screens@.len(),
                adjacency@.len() == i,
                forall|t: int|
                    0 <= t < i ==> gen_screen_edge(#[trigger] adjacency@[t], config, t),
            decreases config.screens@.len() - i,
        {
                        let ghost pre = adjacency@;
adjacency.push(
                AdjEdge {
                    from: config.screens[i].name.clone(),
                    edge: config.screens[i].position.local_edge().opposite(),
                    to: config.identity.name.clone(),
                },
            );
            proof {
                assert forall|t: int| 0 <= t < pre.len() implies adjacency@[t] == pre[t] by {
                    assert(adjacency@ == pre.push(adjacency@.last()));
                }
                assert(adjacency@[i as int] == adjacency@.last());
                assert(gen_screen_edge(adjacency@[i as int], config, i as int));
            }
            i = i + 1;
        }
        // Generated inverses of the remote-to-remote entries.
        let mut i: usize = 0;
        while i < config.screen_adjacency.len()
            invariant
                ns == config.screens@.len() as int,
                na == config.screen_adjacency@.len() as int,
                i <= config.screen_adjacency@.len(),
                adjacency@.len() == ns + i,
                forall|t: int|
                    0 <= t < ns ==> gen_screen_edge(#[trigger] adjacency@[t], config, t),
                forall|t: int|
                    ns <= t < ns + i ==> gen_adj_edge(#[trigger] adjacency@[t], config, t - ns),
            decreases config.screen_adjacency@.len() - i,
        {
                        let ghost pre = adjacency@;
adjacency.push(
                AdjEdge {
                    from: config.screen_adjacency[i].neighbor.clone(),
                    edge: config.screen_adjacency[i].position.local_edge().opposite(),
                    to: config.screen_adjacency[i].screen.clone(),
                },
            );
            proof {
                assert forall|t: int| 0 <= t < pre.len() implies adjacency@[t] == pre[t] by {
                    assert(adjacency@ == pre.push(adjacency@.last()));
                }
                assert(adjacency@[ns + i] == adjacency@.last());
                assert(gen_adj_edge(adjacency@[ns + i], config, (ns + i) - ns));
            }
            i = i + 1;
        }
        // Explicit entries: our own neighbours.
        let mut i: usize = 0;
        while i < config.screens.len()
            invariant
                ns == config.screens@.len() as int,
                na == config.screen_adjacency@.len() as int,
                i <= config.screens@.len(),
                adjacency@.len() == ns + na + i,
                forall|t: int|
                    0 <= t < ns ==> gen_screen_edge(#[trigger] adjacency@[t], config, t),
                forall|t: int|
                    ns <= t < ns + na ==> gen_adj_edge(#[trigger] adjacency@[t], config, t - ns),
                forall|t: int|
                    ns + na <= t < ns + na + i ==> exp_screen_edge(
                        #[trigger] adjacency@[t],
                        config,
                        t - ns - na,
                    ),
            decreases config.screens@.len() - i,
        {
                        let ghost pre = adjacency@;
adjacency.push(
                AdjEdge {
                    from: config.identity.name.clone(),
                    edge: config.screens[i].position.local_edge(),
                    to: config.screens[i].name.clone(),
                },
            );
            proof {
                assert forall|t: int| 0 <= t < pre.len() implies adjacency@[t] == pre[t] by {
                    assert(adjacency@ == pre.push(adjacency@.last()));
                }
                assert(adjacency@[ns + na + i] == adjacency@.last());
                assert(exp_screen_edge(adjacency@[ns + na + i], config, (ns + na + i) - ns - na));
            }
            i = i + 1;
        }
        // Explicit entries: remote-to-remote edges.
        let mut i: usize = 0;
        while i < config.screen_adjacency.len()
            invariant
                ns == config.screens@.len() as int,
                na == config.screen_adjacency@.len() as int,
                i <= config.screen_adjacency@.len(),
                adjacency@.len() == 2 * ns + na + i,
                forall|t: int|
                    0 <= t < ns ==> gen_screen_edge(#[trigger] adjacency@[t], config, t),
                forall|t: int|
                    ns <= t < ns + na ==> gen_adj_edge(#[trigger] adjacency@[t], config, t - ns),
                forall|t: int|
                    ns + na <= t < 2 * ns + na ==> exp_screen_edge(
                        #[trigger] adjacency@[t],
                        config,
                        t - ns - na,
                    ),
                forall|t: int|
                    2 * ns + na <= t < 2 * ns + na + i ==> exp_adj_edge(
                        #[trigger] adjacency@[t],
                        config,
                        t - 2 * ns - na,
                    ),
            decreases config.screen_adjacency@.len() - i,
        {
                        let ghost pre = adjacency@;
adjacency.push(
                AdjEdge {
                    from: config.screen_adjacency[i].screen.clone(),
                    edge: config.screen_adjacency[i].position.local_edge(),
                    to: config.screen_adjacency[i].neighbor.clone(),
                },
            );
            proof {
                assert forall|t: int| 0 <= t < pre.len() implies adjacency@[t] == pre[t] by {
                    assert(adjacency@ == pre.push(adjacency@.last()));
                }
                assert(adjacency@[2 * ns + na + i] == adjacency@.last());
                assert(exp_adj_edge(adjacency@[2 * ns + na + i], config, (2 * ns + na + i) - 2 * ns - na));
            }
            i = i + 1;
        }
        proof {
            lemma_built_edges_paired(adjacency@, config);
        }
        Daemon {
            config,
            machine_id,
            screen,
            sessions: Vec::new(),
            local_devices: Vec::new(),
            cursor_x,
            cursor_y,
            controlling: None,
            controlled_by: None,
            entry_edge: None,
            hotkey_pressed: Vec::new(),
            adjacency,
        }
    }

    /// The index of the session with this remote machine, if any.
    pub fn find_session(&self, id: MachineId) -> (r: Option<usize>)
        ensures
            r matches Some(i) ==> i < self.sessions@.len() && self.sessions@[i as int].machine_id
                == id,
            r is None ==> !self.has_session(id),
            r is Some <==> self.has_session(id),
            self.sessions_unique() ==> (r matches Some(i) ==> i == self.session_index(id)),
    {
        let mut i: usize = 0;
        while i < self.sessions.len()
            invariant
                i <= self.sessions@.len(),
                forall|j: int| 0 <= j < i ==> (#[trigger] self.sessions@[j]).machine_id != id,
            decreases self.sessions@.len() - i,
        {
            if self.sessions[i].machine_id == id {
                proof {
                    if self.sessions_unique() {
                        assert forall|j: int|
                            0 <= j < self.sessions@.len() && (#[trigger] self.sessions@[j]).machine_id
                                == id implies j == i by {}
                    }
                }
                return Some(i);
            }
            i = i + 1;
        }
        None
    }

    /// A snapshot of the observable state.
    pub fn status(&self) -> (r: DaemonStatus)
        ensures
            r.controlling == self.controlling,
            r.controlled_by == self.controlled_by,
            r.session_count == self.sessions@.len(),
            r.cursor_x == self.cursor_x,
            r.cursor_y == self.cursor_y,
    {
        DaemonStatus {
            controlling: self.controlling,
            controlled_by: self.controlled_by,
            session_count: self.sessions.len(),
            cursor_x: self.cursor_x,
            cursor_y: self.cursor_y,
        }
    }

    /// Set the local device list (before the engine runs, after enumeration).
    pub fn set_local_devices(&mut self, devices: Vec<DeviceInfo>)
        ensures
            *final(self) == (Daemon { local_devices: devices, ..*old(self) }),
    {
        self.local_devices = devices;
    }
}

/// The centre coordinate of a dimension, kept inside the clamp range.
fn centre(d: u32) -> (r: i32)
    requires
        d >= 1,
    ensures
        r == spec_centre(d),
        0 <= r < eff_dim(d),
{
    let e: i32 = if d > 0x7FFF_FFFF {
        i32::MAX
    } else {
        d as i32
    };
    let half: u32 = d / 2;
    if half >= e as u32 {
        e - 1
    } else {
        half as i32
    }
}

/// Entry `t` of the generated-inverse segment for `config.screens`.
pub open spec fn gen_screen_edge(e: AdjEdge, config: Config, t: int) -> bool {
    &&& e.from@ == config.screens@[t].name@
    &&& e.edge == spec_opposite(spec_local_edge(config.screens@[t].position))
    &&& e.to@ == config.identity.name@
}

/// Entry `t` of the generated-inverse segment for `config.screen_adjacency`.
pub open spec fn gen_adj_edge(e: AdjEdge, config: Config, t: int) -> bool {
    &&& e.from@ == config.screen_adjacency@[t].neighbor@
    &&& e.edge == spec_opposite(spec_local_edge(config.screen_adjacency@[t].position))
    &&& e.to@ == config.screen_adjacency@[t].screen@
}

/// Entry `t` of the explicit segment for `config.screens`.
pub open spec fn exp_screen_edge(e: AdjEdge, config: Config, t: int) -> bool {
    &&& e.from@ == config.identity.name@
    &&& e.edge == spec_local_edge(config.screens@[t].position)
    &&& e.to@ == config.screens@[t].name@
}

/// Entry `t` of the explicit segment for `config.screen_adjacency`.
pub open spec fn exp_adj_edge(e: AdjEdge, config: Config, t: int) -> bool {
    &&& e.from@ == config.screen_adjacency@[t].screen@
    &&& e.edge == spec_local_edge(config.screen_adjacency@[t].position)
    &&& e.to@ == config.screen_adjacency@[t].neighbor@
}

/// The built adjacency list, segment by segment: the generated inverses of
/// all configured entries first, then the explicit entries themselves.
pub open spec fn adjacency_from_config(s: Seq<AdjEdge>, config: Config) -> bool {
    let ns = config.screens@.len() as int;
    let na = config.screen_adjacency@.len() as int;
    &&& s.len() == 2 * (ns + na)
    &&& forall|t: int| 0 <= t < ns ==> gen_screen_edge(#[trigger] s[t], config, t)
    &&& forall|t: int| ns <= t < ns + na ==> gen_adj_edge(#[trigger] s[t], config, t - ns)
    &&& forall|t: int|
        ns + na <= t < 2 * ns + na ==> exp_screen_edge(#[trigger] s[t], config, t - ns - na)
    &&& forall|t: int|
        2 * ns + na <= t < 2 * ns + 2 * na ==> exp_adj_edge(
            #[trigger] s[t],
            config,
            t - 2 * ns - na,
        )
}

/// A list built segmentwise from the configuration carries every edge's
/// inverse.
proof fn lemma_built_edges_paired(s: Seq<AdjEdge>, config: Config)
    requires
        adjacency_from_config(s, config),
    ensures
        edges_paired(s),
{
    let ns = config.screens@.len() as int;
    let na = config.screen_adjacency@.len() as int;
    assert forall|i: int| 0 <= i < s.len() implies exists|j: int|
        0 <= j < s.len() && (#[trigger] s[j]).from@ == (#[trigger] s[i]).to@ && s[j].edge
            == spec_opposite(s[i].edge) && s[j].to@ == s[i].from@ by {
        if i < ns {
            let j = ns + na + i;
            assert(gen_screen_edge(s[i], config, i));
            assert(exp_screen_edge(s[j], config, j - ns - na));
            crate::screen::lemma_opposite_involution(
                spec_local_edge(config.screens@[i].position),
            );
            assert(0 <= j < s.len() && (#[trigger] s[j]).from@ == s[i].to@ && s[j].edge
                == spec_opposite(s[i].edge) && s[j].to@ == s[i].from@);
        } else if i < ns + na {
            let j = i + ns + na;
            assert(gen_adj_edge(s[i], config, i - ns));
            assert(exp_adj_edge(s[j], config, j - 2 * ns - na));
            crate::screen::lemma_opposite_involution(
                spec_local_edge(config.screen_adjacency@[i - ns].position),
            );
            assert(0 <= j < s.len() && (#[trigger] s[j]).from@ == s[i].to@ && s[j].edge
                == spec_opposite(s[i].edge) && s[j].to@ == s[i].from@);
        } else if i < 2 * ns + na {
            let j = i - ns - na;
            assert(exp_screen_edge(s[i], config, i - ns - na));
            assert(gen_screen_edge(s[j], config, j));
            assert(0 <= j < s.len() && (#[trigger] s[j]).from@ == s[i].to@ && s[j].edge
                == spec_opposite(s[i].edge) && s[j].to@ == s[i].from@);
        } else {
            let j = i - ns - na;
            assert(exp_adj_edge(s[i], config, i - 2 * ns - na));
            assert(gen_adj_edge(s[j], config, j - ns));
            assert(0 <= j < s.len() && (#[trigger] s[j]).from@ == s[i].to@ && s[j].edge
                == spec_opposite(s[i].edge) && s[j].to@ == s[i].from@);
        }
    }
}

impl Daemon {
    /// Where the cursor goes when leaving `name` across `edge`, per the
    /// adjacency map. Later entries in the list override earlier ones.
    pub fn lookup_adjacency(&self, name: &String, edge: ScreenEdge) -> (r: Option<String>)
        ensures
            r is Some <==> adj_map(self.adjacency@).contains_key((name@, edge)),
            r matches Some(t) ==> t@ == adj_map(self.adjacency@)[(name@, edge)],
    {
        let n = self.adjacency.len();
        let mut i: usize = n;
        while i > 0
            invariant
                i <= n,
                n == self.adjacency@.len(),
                forall|j: int|
                    i <= j < n ==> adj_key(#[trigger] self.adjacency@[j]) != (name@, edge),
            decreases i,
        {
            i = i - 1;
            let entry = &self.adjacency[i];
            if entry.from == *name && entry.edge == edge {
                proof {
                    lemma_last_entry_value(self.adjacency@, i as int);
                }
                return Some(entry.to.clone());
            }
        }
        proof {
            if adj_map(self.adjacency@).contains_key((name@, edge)) {
                lemma_contained_has_entry(self.adjacency@, (name@, edge));
            }
        }
        None
    }

    /// Update the pressed-key set from one input event: a press adds the
    /// key if absent, a release removes it, anything else leaves the set
    /// alone.
    pub fn update_hotkey_state(&mut self, event: &InputEvent)
        ensures
            *final(self) == (Daemon { hotkey_pressed: final(self).hotkey_pressed, ..*old(self) }),
            final(self).hotkey_pressed@ == spec_update_hotkey(old(self).hotkey_pressed@, *event),
    {
        match event {
            InputEvent::Key { code, state: crate::event::ButtonState::Pressed } => {
                let mut found = false;
                let mut i: usize = 0;
                while i < self.hotkey_pressed.len()
                    invariant
                        i <= self.hotkey_pressed@.len(),
                        found <==> exists|j: int| 0 <= j < i && self.hotkey_pressed@[j] == *code,
                    decreases self.hotkey_pressed@.len() - i,
                {
                    if self.hotkey_pressed[i] == *code {
                        found = true;
                    }
                    i = i + 1;
                }
                if !found {
                    self.hotkey_pressed.push(*code);
                }
            },
            InputEvent::Key { code, state: crate::event::ButtonState::Released } => {
                let ghost pred = |k: KeyCode| k != *code;
                let mut kept: Vec<KeyCode> = Vec::new();
                let mut i: usize = 0;
                proof {
                    assert(self.hotkey_pressed@.take(0).filter(pred) =~= Seq::<KeyCode>::empty())
                        by {
                        reveal(Seq::filter);
                    }
                }
                while i < self.hotkey_pressed.len()
                    invariant
                        i <= self.hotkey_pressed@.len(),
                        pred == (|k: KeyCode| k != *code),
                        kept@ == self.hotkey_pressed@.take(i as int).filter(pred),
                    decreases self.hotkey_pressed@.len() - i,
                {
                    let cur = self.hotkey_pressed[i];
                    if cur != *code {
                        kept.push(cur);
                    }
                    proof {
                        let taken = self.hotkey_pressed@.take(i + 1);
                        assert(taken.drop_last() =~= self.hotkey_pressed@.take(i as int));
                        assert(taken.last() == cur);
                        assert(taken.filter(pred) == if pred(cur) {
                            taken.drop_last().filter(pred).push(cur)
                        } else {
                            taken.drop_last().filter(pred)
                        }) by {
                            reveal(Seq::filter);
                        }
                    }
                    i = i + 1;
                }
                proof {
                    assert(self.hotkey_pressed@.take(self.hotkey_pressed@.len() as int)
                        =~= self.hotkey_pressed@);
                }
                self.hotkey_pressed = kept;
            },
            _ => {},
        }
    }

    /// Whether the configured release hot-key chord is fully pressed.
    pub fn is_release_hotkey_pressed(&self) -> (r: bool)
        ensures
            r == self.release_hotkey_satisfied(),
    {
        let mut i: usize = 0;
        while i < self.config.input.release_hotkey.len()
            invariant
                i <= self.config.input.release_hotkey@.len(),
                forall|t: int|
                    0 <= t < i ==> name_pressed(
                        self.hotkey_pressed@,
                        (#[trigger] self.config.input.release_hotkey@[t])@,
                    ),
            decreases self.config.input.release_hotkey@.len() - i,
        {
            let name = &self.config.input.release_hotkey[i];
            let mut matched = false;
            let mut j: usize = 0;
            while j < self.hotkey_pressed.len()
                invariant
                    j <= self.hotkey_pressed@.len(),
                    0 <= i < self.config.input.release_hotkey@.len(),
                    name@ == (self.config.input.release_hotkey@[i as int])@,
                    forall|t: int|
                        0 <= t < i ==> name_pressed(
                            self.hotkey_pressed@,
                            (#[trigger] self.config.input.release_hotkey@[t])@,
                        ),
                    matched ==> name_pressed(self.hotkey_pressed@, name@),
                    !matched ==> forall|l: int|
                        0 <= l < j ==> !(!((#[trigger] self.hotkey_pressed@[l]) is Unknown)
                            && spec_keycode_name(self.hotkey_pressed@[l]) == name@),
                decreases self.hotkey_pressed@.len() - j,
            {
                if crate::event::keycode_matches_name(self.hotkey_pressed[j], name) {
                    matched = true;
                    proof {
                        assert(name_pressed(self.hotkey_pressed@, name@)) by {
                            assert(!((self.hotkey_pressed@[j as int]) is Unknown)
                                && spec_keycode_name(self.hotkey_pressed@[j as int]) == name@);
                        }
                    }
                }
                j = j + 1;
            }
            if !matched {
                proof {
                    if self.release_hotkey_satisfied() {
                        assert(name_pressed(
                            self.hotkey_pressed@,
                            (self.config.input.release_hotkey@[i as int])@,
                        ));
                        let l = choose|l: int|
                            0 <= l < self.hotkey_pressed@.len() && !((
                            #[trigger] self.hotkey_pressed@[l]) is Unknown) && spec_keycode_name(
                                self.hotkey_pressed@[l],
                            ) == name@;
                        assert(false);
                    }
                }
                return false;
            }
            i = i + 1;
        }
        true
    }
}

/// A coordinate clamped into the screen box along one dimension.
pub open spec fn clamp_coord(v: int, dim: u32) -> int {
    if v < 0 {
        0
    } else if v > eff_dim(dim) - 1 {
        eff_dim(dim) - 1
    } else {
        v
    }
}

/// Add a delta to a cursor coordinate and clamp it into the screen box.
fn clamp_add(cur: i32, delta: i32, dim: u32) -> (r: i32)
    requires
        dim >= 1,
    ensures
        r == clamp_coord(cur + delta, dim),
{
    let e: i32 = if dim > 0x7FFF_FFFF {
        i32::MAX
    } else {
        dim as i32
    };
    let sum: i64 = cur as i64 + delta as i64;
    if sum < 0 {
        0
    } else if sum > (e - 1) as i64 {
        e - 1
    } else {
        sum as i32
    }
}

/// The cursor after applying every relative mouse move of a batch in order,
/// with clamping after each step.
pub open spec fn apply_moves(x: int, y: int, events: Seq<InputEvent>, sw: u32, sh: u32) -> (
    int,
    int,
)
    decreases events.len(),
{
    if events.len() == 0 {
        (x, y)
    } else {
        match events[0] {
            InputEvent::MouseMove { dx, dy } => apply_moves(
                clamp_coord(x + dx, sw),
                clamp_coord(y + dy, sh),
                events.drop_first(),
                sw,
                sh,
            ),
            _ => apply_moves(x, y, events.drop_first(), sw, sh),
        }
    }
}

/// The position of the cursor along an edge: the y coordinate for the left
/// and right edges, the x coordinate for the top and bottom edges, floored
/// at zero.
pub open spec fn spec_pos_along(d: Daemon, edge: ScreenEdge) -> u32 {
    let c = if edge is Left || edge is Right {
        d.cursor_y as int
    } else {
        d.cursor_x as int
    };
    if c < 0 {
        0u32
    } else {
        c as u32
    }
}

/// The first session whose remote name is `name`, scanning from `i`.
pub open spec fn spec_first_session_named(sessions: Seq<PeerSession>, name: Seq<char>, i: int) -> Option<
    int,
>
    decreases sessions.len() - i,
{
    if i < 0 || i >= sessions.len() {
        None
    } else if sessions[i].name@ == name {
        Some(i)
    } else {
        spec_first_session_named(sessions, name, i + 1)
    }
}

/// The first barrier crossing, scanning the configured screens from `i` in
/// configuration order: a screen whose edge the cursor sits on and for which
/// a session exists. Yields that session's machine, the edge, and the
/// position along it.
pub open spec fn spec_barrier_from(d: Daemon, i: int) -> Option<(MachineId, ScreenEdge, u32)>
    decreases d.config.screens@.len() - i,
{
    if i < 0 || i >= d.config.screens@.len() {
        None
    } else {
        let edge = spec_local_edge(d.config.screens@[i].position);
        if d.screen.spec_at_edge(d.cursor_x as int, d.cursor_y as int, edge)
            && spec_first_session_named(d.sessions@, d.config.screens@[i].name@, 0) is Some {
            let j = spec_first_session_named(d.sessions@, d.config.screens@[i].name@, 0)->Some_0;
            Some((d.sessions@[j].machine_id, edge, spec_pos_along(d, edge)))
        } else {
            spec_barrier_from(d, i + 1)
        }
    }
}

impl Daemon {
    /// The index of the first session whose remote name is `name`, if any.
    fn find_session_by_name(&self, name: &String) -> (r: Option<usize>)
        ensures
            r matches Some(i) ==> i < self.sessions@.len() && self.sessions@[i as int].name@
                == name@ && spec_first_session_named(self.sessions@, name@, 0) == Some(i as int),
            r is None ==> spec_first_session_named(self.sessions@, name@, 0) is None,
    {
        let mut i: usize = 0;
        while i < self.sessions.len()
            invariant
                i <= self.sessions@.len(),
                spec_first_session_named(self.sessions@, name@, 0) == spec_first_session_named(
                    self.sessions@,
                    name@,
                    i as int,
                ),
                forall|j: int| 0 <= j < i ==> (#[trigger] self.sessions@[j]).name@ != name@,
            decreases self.sessions@.len() - i,
        {
            if self.sessions[i].name == *name {
                proof {
                    assert(spec_first_session_named(self.sessions@, name@, i as int) == Some(
                        i as int,
                    ));
                }
                return Some(i);
            }
            proof {
                assert(spec_first_session_named(self.sessions@, name@, i as int)
                    == spec_first_session_named(self.sessions@, name@, i + 1));
            }
            i = i + 1;
        }
        None
    }

    /// The first barrier the cursor is crossing, in configuration order.
    pub fn check_barrier_crossing(&self) -> (r: Option<(MachineId, ScreenEdge, u32)>)
        ensures
            r == spec_barrier_from(*self, 0),
    {
        let mut i: usize = 0;
        while i < self.config.screens.len()
            invariant
                i <= self.config.screens@.len(),
                spec_barrier_from(*self, 0) == spec_barrier_from(*self, i as int),
            decreases self.config.screens@.len() - i,
        {
            let edge = self.config.screens[i].position.local_edge();
            if self.screen.is_at_edge(self.cursor_x, self.cursor_y, edge) {
                match self.find_session_by_name(&self.config.screens[i].name) {
                    Some(j) => {
                        let position: u32 = match edge {
                            ScreenEdge::Left | ScreenEdge::Right => {
                                if self.cursor_y < 0 {
                                    0
                                } else {
                                    self.cursor_y as u32
                                }
                            },
                            ScreenEdge::Top | ScreenEdge::Bottom => {
                                if self.cursor_x < 0 {
                                    0
                                } else {
                                    self.cursor_x as u32
                                }
                            },
                        };
                        proof {
                            assert(position == spec_pos_along(*self, edge));
                            assert(spec_barrier_from(*self, i as int) == Some(
                                (self.sessions@[j as int].machine_id, edge, position),
                            ));
                        }
                        return Some((self.sessions[j].machine_id, edge, position));
                    },
                    None => {},
                }
            }
            proof {
                assert(spec_barrier_from(*self, i as int) == spec_barrier_from(*self, i + 1));
            }
            i = i + 1;
        }
        None
    }

    /// Re-centre the cursor on the local screen.
    fn centre_cursor(&mut self)
        requires
            old(self).screen_valid(),
        ensures
            *final(self) == (Daemon {
                cursor_x: spec_centre(old(self).screen.width) as i32,
                cursor_y: spec_centre(old(self).screen.height) as i32,
                ..*old(self)
            }),
            final(self).cursor_in_bounds(),
    {
        self.cursor_x = centre(self.screen.width);
        self.cursor_y = centre(self.screen.height);
    }

    /// Release control of the remote we are driving, if any: send it a
    /// `Leave`, give input back to the local desktop, and re-centre the
    /// cursor. The `Leave` carries a fixed edge and position; the receiver
    /// ignores them on a voluntary release.
    pub fn release_control(&mut self) -> (actions: Vec<DaemonAction>)
        requires
            old(self).wf(),
        ensures
            final(self).wf(),
            old(self).controlling is None ==> *final(self) == *old(self) && actions@.len() == 0,
            old(self).controlling matches Some(p) ==> {
                &&& final(self).controlling is None
                &&& final(self).controlled_by == old(self).controlled_by
                &&& final(self).entry_edge == old(self).entry_edge
                &&& final(self).cursor_x == spec_centre(old(self).screen.width) as i32
                &&& final(self).cursor_y == spec_centre(old(self).screen.height) as i32
                &&& final(self).hotkey_pressed == old(self).hotkey_pressed
                &&& final(self).config == old(self).config
                &&& (old(self).has_session(p) ==> {
                    &&& final(self).sessions@ == old(self).sessions@.update(
                        old(self).session_index(p),
                        PeerSession {
                            state: crate::state::SessionState::Idle,
                            input_open: false,
                            ..old(self).session_for(p)
                        },
                    )
                    &&& final(self).has_session(p)
                    &&& final(self).session_for(p) == (PeerSession {
                        state: crate::state::SessionState::Idle,
                        input_open: false,
                        ..old(self).session_for(p)
                    })
                    &&& actions@.len() == 2
                    &&& (actions@[0] matches DaemonAction::SendControl { peer, msg } && peer == p
                        && msg@ == (crate::message::ControlMessageV::Leave {
                        edge: ScreenEdge::Left,
                        position: 0,
                    }))
                    &&& actions@[1] == DaemonAction::ReleaseCapture
                })
                &&& (!old(self).has_session(p) ==> final(self).sessions == old(self).sessions
                    && actions@.len() == 1 && actions@[0] == DaemonAction::ReleaseCapture)
                &&& (forall|q: MachineId|
                    #[trigger] final(self).has_session(q) <==> old(self).has_session(q))
                &&& (forall|q: MachineId|
                    q != p && old(self).has_session(q) ==> #[trigger] final(self).session_for(q)
                        == old(self).session_for(q))
            },
    {
        let mut actions: Vec<DaemonAction> = Vec::new();
        match self.controlling {
            None => actions,
            Some(peer_id) => {
                self.controlling = None;
                match self.find_session(peer_id) {
                    Some(i) => {
                        let ghost s0 = self.sessions@;
                        let msg = self.sessions[i].leave(ScreenEdge::Left, 0);
                        proof {
                            lemma_session_seq_update(s0, i as int, self.sessions@[i as int]);
                        }
                        actions.push(DaemonAction::SendControl { peer: peer_id, msg });
                    },
                    None => {},
                }
                actions.push(DaemonAction::ReleaseCapture);
                self.centre_cursor();
                proof {
                    match self.controlled_by {
                        Some(q) => {
                            assert(old(self).focus_exclusive());
                            assert(false);
                        },
                        None => {},
                    }
                }
                actions
            },
        }
    }

    /// Begin controlling `peer_id`: have its session enter the Controlling
    /// state and emit the actions that open the input stream and transmit
    /// the `Enter`. Control is not latched here; that happens when the
    /// `EnterAck` arrives. A missing session, or one not in Idle, makes
    /// this a no-op.
    pub fn initiate_control(&mut self, peer_id: MachineId, edge: ScreenEdge, position: u32) -> (actions:
        Vec<DaemonAction>)
        requires
            old(self).wf(),
        ensures
            final(self).wf(),
            *final(self) == (Daemon { sessions: final(self).sessions, ..*old(self) }),
            old(self).has_session(peer_id) && old(self).session_for(peer_id).state is Idle ==> {
                &&& final(self).sessions@ == old(self).sessions@.update(
                    old(self).session_index(peer_id),
                    PeerSession {
                        state: crate::state::SessionState::Controlling,
                        input_open: true,
                        ..old(self).session_for(peer_id)
                    },
                )
                &&& final(self).has_session(peer_id)
                &&& final(self).session_for(peer_id) == (PeerSession {
                    state: crate::state::SessionState::Controlling,
                    input_open: true,
                    ..old(self).session_for(peer_id)
                })
                &&& actions@.len() == 2
                &&& actions@[0] == (DaemonAction::OpenInputStream { peer: peer_id })
                &&& (actions@[1] matches DaemonAction::SendControl { peer, msg } && peer == peer_id
                    && msg@ == (crate::message::ControlMessageV::Enter { edge, position }))
            },
            !(old(self).has_session(peer_id) && old(self).session_for(peer_id).state is Idle)
                ==> final(self).sessions@ == old(self).sessions@ && actions@.len() == 0,
            forall|q: MachineId| #[trigger] final(self).has_session(q) <==> old(self).has_session(q),
            forall|q: MachineId|
                q != peer_id && old(self).has_session(q) ==> #[trigger] final(self).session_for(q)
                    == old(self).session_for(q),
    {
        let mut actions: Vec<DaemonAction> = Vec::new();
        match self.find_session(peer_id) {
            Some(i) => {
                let ghost s0 = self.sessions@;
                let r = self.sessions[i].send_enter(edge, position);
                proof {
                    lemma_session_seq_update(s0, i as int, self.sessions@[i as int]);
                    match self.controlling {
                        Some(q) => {
                            assert(has_session_seq(s0, q) && session_for_seq(
                                s0,
                                q,
                            ).state is Controlling);
                            if q == peer_id {
                                assert(session_for_seq(s0, q) == s0[i as int]);
                            }
                        },
                        None => {},
                    }
                    match self.controlled_by {
                        Some(q) => {
                            assert(has_session_seq(s0, q) && session_for_seq(
                                s0,
                                q,
                            ).state is Controlled);
                            if q == peer_id {
                                assert(session_for_seq(s0, q) == s0[i as int]);
                            }
                        },
                        None => {},
                    }
                    assert(self.sessions@ =~= s0.update(i as int, self.sessions@[i as int]));
                }
                match r {
                    Ok(msg) => {
                        actions.push(DaemonAction::OpenInputStream { peer: peer_id });
                        actions.push(DaemonAction::SendControl { peer: peer_id, msg });
                    },
                    Err(_) => {
                        proof {
                            assert(self.sessions@ =~= s0);
                        }
                    },
                }
            },
            None => {},
        }
        actions
    }
}

impl Daemon {
    /// React to one captured local input event.
    ///
    /// The pressed-key set is updated first. If that completes the release
    /// chord while we control a remote, control is released. Otherwise,
    /// while controlling, the event is forwarded to the controlled peer as a
    /// one-event input message. Otherwise a relative mouse move drags the
    /// virtual cursor (clamped to the screen box) and a barrier crossing
    /// initiates control of the neighbour on that edge; any other event is
    /// discarded at idle.
    #[verifier::rlimit(100)]
    #[verifier::spinoff_prover]
    pub fn handle_captured_input(&mut self, captured: CapturedEvent) -> (actions: Vec<
        DaemonAction,
    >)
        requires
            old(self).wf(),
        ensures
            final(self).wf(),
            captured_input_post(*old(self), captured, *final(self), actions@),

    {
        self.update_hotkey_state(&captured.event);
        if self.is_release_hotkey_pressed() && self.controlling.is_some() {
            return self.release_control();
        }
        match self.controlling {
            Some(peer_id) => {
                match self.find_session(peer_id) {
                    Some(i) => {
                        let mut events: Vec<InputEvent> = Vec::new();
                        events.push(captured.event);
                        proof {
                            assert(events@ =~= seq![captured.event]);
                        }
                        let msg = InputMessage {
                            device_id: captured.device_id,
                            timestamp_us: captured.timestamp_us,
                            events,
                        };
                        match self.sessions[i].send_input(msg) {
                            Some(m) => {
                                let mut actions: Vec<DaemonAction> = Vec::new();
                                actions.push(DaemonAction::SendInput { peer: peer_id, msg: m });
                                actions
                            },
                            None => Vec::new(),
                        }
                    },
                    None => Vec::new(),
                }
            },
            None => {
                match captured.event {
                    InputEvent::MouseMove { dx, dy } => {
                        self.cursor_x = clamp_add(self.cursor_x, dx, self.screen.width);
                        self.cursor_y = clamp_add(self.cursor_y, dy, self.screen.height);
                        proof {
                            assert(*self == (Daemon {
                                cursor_x: (match captured.event {
                                    InputEvent::MouseMove { dx, dy } => clamp_coord(
                                        old(self).cursor_x + dx,
                                        old(self).screen.width,
                                    ),
                                    _ => old(self).cursor_x as int,
                                }) as i32,
                                cursor_y: (match captured.event {
                                    InputEvent::MouseMove { dx, dy } => clamp_coord(
                                        old(self).cursor_y + dy,
                                        old(self).screen.height,
                                    ),
                                    _ => old(self).cursor_y as int,
                                }) as i32,
                                hotkey_pressed: self.hotkey_pressed,
                                ..*old(self)
                            }));
                        }
                        match self.check_barrier_crossing() {
                            Some((pid, edge, pos)) => self.initiate_control(pid, edge, pos),
                            None => Vec::new(),
                        }
                    },
                    _ => {
                        proof {
                            assert(*self == (Daemon {
                                cursor_x: (match captured.event {
                                    InputEvent::MouseMove { dx, dy } => clamp_coord(
                                        old(self).cursor_x + dx,
                                        old(self).screen.width,
                                    ),
                                    _ => old(self).cursor_x as int,
                                }) as i32,
                                cursor_y: (match captured.event {
                                    InputEvent::MouseMove { dx, dy } => clamp_coord(
                                        old(self).cursor_y + dy,
                                        old(self).screen.height,
                                    ),
                                    _ => old(self).cursor_y as int,
                                }) as i32,
                                hotkey_pressed: self.hotkey_pressed,
                                ..*old(self)
                            }));
                        }
                        Vec::new()
                    },
                }
            },
        }
    }
}

/// Removing one session keeps the list's shape for every other machine.
pub proof fn lemma_session_seq_remove(s: Seq<PeerSession>, i: int)
    requires
        sessions_unique_seq(s),
        0 <= i < s.len(),
    ensures
        sessions_unique_seq(s.remove(i)),
        sessions_wf_seq(s) ==> sessions_wf_seq(s.remove(i)),
        !has_session_seq(s.remove(i), s[i].machine_id),
        forall|p: MachineId|
            p != s[i].machine_id ==> (#[trigger] has_session_seq(s.remove(i), p)
                <==> has_session_seq(s, p)),
        forall|p: MachineId|
            p != s[i].machine_id && has_session_seq(s, p) ==> #[trigger] session_for_seq(
                s.remove(i),
                p,
            ) == session_for_seq(s, p),
{
    s.remove_ensures(i);
    let s2 = s.remove(i);
    assert forall|x: int, y: int|
        0 <= x < y < s2.len() implies (#[trigger] s2[x]).machine_id != (
    #[trigger] s2[y]).machine_id by {
        let x2 = if x < i {
            x
        } else {
            x + 1
        };
        let y2 = if y < i {
            y
        } else {
            y + 1
        };
        assert(s2[x] == s[x2] && s2[y] == s[y2]);
    }
    assert forall|x: int| 0 <= x < s2.len() && sessions_wf_seq(s) implies (
    #[trigger] s2[x]).wf() by {
        let x2 = if x < i {
            x
        } else {
            x + 1
        };
        assert(s2[x] == s[x2]);
    }
    if has_session_seq(s2, s[i].machine_id) {
        let j = choose|j: int| 0 <= j < s2.len() && (#[trigger] s2[j]).machine_id == s[i].machine_id;
        let j2 = if j < i {
            j
        } else {
            j + 1
        };
        assert(s2[j] == s[j2]);
        if j2 < i {
            assert(s[j2].machine_id != s[i].machine_id);
        } else {
            assert(s[i].machine_id != s[j2].machine_id);
        }
    }
    assert forall|p: MachineId|
        p != s[i].machine_id implies (#[trigger] has_session_seq(s2, p) <==> has_session_seq(
        s,
        p,
    )) by {
        if has_session_seq(s2, p) {
            let j = choose|j: int| 0 <= j < s2.len() && (#[trigger] s2[j]).machine_id == p;
            let j2 = if j < i {
                j
            } else {
                j + 1
            };
            assert((#[trigger] s[j2]).machine_id == p);
        }
        if has_session_seq(s, p) {
            let j = choose|j: int| 0 <= j < s.len() && (#[trigger] s[j]).machine_id == p;
            let j2 = if j < i {
                j
            } else {
                j - 1
            };
            assert((#[trigger] s2[j2]).machine_id == p);
        }
    }
    assert forall|p: MachineId|
        p != s[i].machine_id && has_session_seq(s, p) implies #[trigger] session_for_seq(s2, p)
        == session_for_seq(s, p) by {
        let j = session_index_seq(s, p);
        assert(0 <= j < s.len() && s[j].machine_id == p);
        let j2 = session_index_seq(s2, p);
        assert(has_session_seq(s2, p));
        assert(0 <= j2 < s2.len() && s2[j2].machine_id == p);
        let j2up = if j2 < i {
            j2
        } else {
            j2 + 1
        };
        assert(s2[j2] == s[j2up]);
        if j2up != j {
            if j < j2up {
                assert(s[j].machine_id != s[j2up].machine_id);
            } else {
                assert(s[j2up].machine_id != s[j].machine_id);
            }
        }
    }
}

/// Appending a session for a machine not yet in the list keeps its shape.
pub proof fn lemma_session_seq_push(s: Seq<PeerSession>, s2: PeerSession)
    requires
        sessions_unique_seq(s),
        !has_session_seq(s, s2.machine_id),
    ensures
        sessions_unique_seq(s.push(s2)),
        sessions_wf_seq(s) && s2.wf() ==> sessions_wf_seq(s.push(s2)),
        has_session_seq(s.push(s2), s2.machine_id),
        session_for_seq(s.push(s2), s2.machine_id) == s2,
        forall|p: MachineId|
            p != s2.machine_id ==> (#[trigger] has_session_seq(s.push(s2), p) <==> has_session_seq(
                s,
                p,
            )),
        forall|p: MachineId|
            p != s2.machine_id && has_session_seq(s, p) ==> #[trigger] session_for_seq(
                s.push(s2),
                p,
            ) == session_for_seq(s, p),
{
    let s3 = s.push(s2);
    assert(s3[s.len() as int] == s2);
    assert forall|x: int, y: int|
        0 <= x < y < s3.len() implies (#[trigger] s3[x]).machine_id != (
    #[trigger] s3[y]).machine_id by {
        if y == s.len() {
            assert(s3[x] == s[x]);
            if s[x].machine_id == s2.machine_id {
                assert((#[trigger] s[x]).machine_id == s2.machine_id);
            }
        } else {
            assert(s3[x] == s[x] && s3[y] == s[y]);
        }
    }
    assert forall|x: int|
        0 <= x < s3.len() && sessions_wf_seq(s) && s2.wf() implies (#[trigger] s3[x]).wf() by {
        if x < s.len() {
            assert(s3[x] == s[x]);
        }
    }
    assert(has_session_seq(s3, s2.machine_id));
    let j = session_index_seq(s3, s2.machine_id);
    assert(0 <= j < s3.len() && s3[j].machine_id == s2.machine_id);
    if j != s.len() {
        assert(s3[j] == s[j]);
        assert((#[trigger] s[j]).machine_id == s2.machine_id);
    }
    assert forall|p: MachineId|
        p != s2.machine_id implies (#[trigger] has_session_seq(s3, p) <==> has_session_seq(
        s,
        p,
    )) by {
        if has_session_seq(s3, p) {
            let x = choose|x: int| 0 <= x < s3.len() && (#[trigger] s3[x]).machine_id == p;
            assert((#[trigger] s[x]).machine_id == p);
        }
        if has_session_seq(s, p) {
            let x = choose|x: int| 0 <= x < s.len() && (#[trigger] s[x]).machine_id == p;
            assert((#[trigger] s3[x]).machine_id == p);
        }
    }
    assert forall|p: MachineId|
        p != s2.machine_id && has_session_seq(s, p) implies #[trigger] session_for_seq(s3, p)
        == session_for_seq(s, p) by {
        let x = session_index_seq(s, p);
        assert(0 <= x < s.len() && s[x].machine_id == p);
        assert((#[trigger] s3[x]).machine_id == p);
        let x3 = session_index_seq(s3, p);
        assert(0 <= x3 < s3.len() && s3[x3].machine_id == p);
        if x3 != x {
            if x3 == s.len() {
            } else {
                if x < x3 {
                    assert(s[x].machine_id != s[x3].machine_id);
                } else {
                    assert(s[x3].machine_id != s[x].machine_id);
                }
            }
        }
    }
}

/// In a list without duplicate machines, the session at an index is the
/// session for its machine.
pub proof fn lemma_session_at_index(s: Seq<PeerSession>, j: int)
    requires
        sessions_unique_seq(s),
        0 <= j < s.len(),
    ensures
        has_session_seq(s, s[j].machine_id),
        session_index_seq(s, s[j].machine_id) == j,
        session_for_seq(s, s[j].machine_id) == s[j],
{
    assert((#[trigger] s[j]).machine_id == s[j].machine_id);
    assert(has_session_seq(s, s[j].machine_id));
    let x = session_index_seq(s, s[j].machine_id);
    assert(0 <= x < s.len() && s[x].machine_id == s[j].machine_id);
    if x != j {
        if x < j {
            assert(s[x].machine_id != s[j].machine_id);
        } else {
            assert(s[j].machine_id != s[x].machine_id);
        }
    }
}

/// The cursor position after entering the screen on `entry` at `position`
/// pixels along that edge, clamped into the screen box.
pub open spec fn spec_warp(screen: ScreenGeometry, entry: ScreenEdge, position: u32) -> (int, int) {
    let px = clamp_coord(position as int, screen.width);
    let py = clamp_coord(position as int, screen.height);
    match entry {
        ScreenEdge::Left => (0, py),
        ScreenEdge::Right => (eff_dim(screen.width) - 1, py),
        ScreenEdge::Top => (px, 0),
        ScreenEdge::Bottom => (px, eff_dim(screen.height) - 1),
    }
}

/// The first reverse barrier, scanning the configured screens from `i`: an
/// edge the cursor sits on that is not the suppressed entry edge. Yields the
/// edge and the position along it.
pub open spec fn spec_reverse_barrier(
    screens: Seq<crate::config::ScreenConfig>,
    screen: ScreenGeometry,
    cx: int,
    cy: int,
    entry: Option<ScreenEdge>,
    i: int,
) -> Option<(ScreenEdge, u32)>
    decreases screens.len() - i,
{
    if i < 0 || i >= screens.len() {
        None
    } else {
        let edge = spec_local_edge(screens[i].position);
        if entry != Some(edge) && screen.spec_at_edge(cx, cy, edge) {
            let c = if edge is Left || edge is Right {
                cy
            } else {
                cx
            };
            Some((edge, (if c < 0 { 0int } else { c }) as u32))
        } else {
            spec_reverse_barrier(screens, screen, cx, cy, entry, i + 1)
        }
    }
}

impl Daemon {
    /// Warp the cursor to the border pixel where it enters on `entry`.
    fn warp_cursor(&mut self, entry: ScreenEdge, position: u32)
        requires
            old(self).screen_valid(),
        ensures
            *final(self) == (Daemon {
                cursor_x: spec_warp(old(self).screen, entry, position).0 as i32,
                cursor_y: spec_warp(old(self).screen, entry, position).1 as i32,
                ..*old(self)
            }),
            final(self).cursor_in_bounds(),
    {
        let px: i32 = clamp_add(0, if position > 0x7FFF_FFFF {
            i32::MAX
        } else {
            position as i32
        }, self.screen.width);
        let py: i32 = clamp_add(0, if position > 0x7FFF_FFFF {
            i32::MAX
        } else {
            position as i32
        }, self.screen.height);
        let w: i32 = if self.screen.width > 0x7FFF_FFFF {
            i32::MAX
        } else {
            self.screen.width as i32
        };
        let h: i32 = if self.screen.height > 0x7FFF_FFFF {
            i32::MAX
        } else {
            self.screen.height as i32
        };
        match entry {
            ScreenEdge::Left => {
                self.cursor_x = 0;
                self.cursor_y = py;
            },
            ScreenEdge::Right => {
                self.cursor_x = w - 1;
                self.cursor_y = py;
            },
            ScreenEdge::Top => {
                self.cursor_x = px;
                self.cursor_y = 0;
            },
            ScreenEdge::Bottom => {
                self.cursor_x = px;
                self.cursor_y = h - 1;
            },
        }
    }

    /// React to a peer having disconnected: clear any focus it held, destroy
    /// every virtual device its session created, and drop the session.
    pub fn handle_peer_disconnected(&mut self, machine_id: MachineId) -> (actions: Vec<
        DaemonAction,
    >)
        requires
            old(self).wf(),
        ensures
            final(self).wf(),
            peer_disconnected_post(*old(self), machine_id, *final(self), actions@),

    {
        let mut actions: Vec<DaemonAction> = Vec::new();
        if self.controlling == Some(machine_id) {
            self.controlling = None;
            actions.push(DaemonAction::ReleaseCapture);
        }
        if self.controlled_by == Some(machine_id) {
            self.controlled_by = None;
            self.entry_edge = None;
        }
        match self.find_session(machine_id) {
            Some(i) => {
                let vids = self.sessions[i].device_map.values();
                let ghost dm = self.sessions@[i as int].device_map@;
                let mut k: usize = 0;
                let ghost a0 = actions@;
                while k < vids.len()
                    invariant
                        k <= vids@.len(),
                        old(self).controlling == Some(machine_id) ==> a0.len() >= 1 && a0[0]
                            == DaemonAction::ReleaseCapture,
                        actions@.len() == a0.len() + k,
                        forall|t: int| 0 <= t < a0.len() ==> actions@[t] == a0[t],
                        forall|t: int|
                            0 <= t < k ==> actions@[a0.len() + t] == (DaemonAction::DestroyDevice {
                                virtual_id: vids@[t],
                            }),
                    decreases vids@.len() - k,
                {
                    let ghost pre = actions@;
                    actions.push(DaemonAction::DestroyDevice { virtual_id: vids[k] });
                    proof {
                        assert forall|t: int| 0 <= t < pre.len() implies actions@[t] == pre[t] by {
                            assert(actions@ == pre.push(actions@.last()));
                        }
                    }
                    k = k + 1;
                }
                proof {
                    assert forall|d: DeviceId| #[trigger]
                        dm.contains_key(d) implies actions@.contains(
                        DaemonAction::DestroyDevice { virtual_id: dm[d] },
                    ) by {
                        let t = choose|t: int| 0 <= t < vids@.len() && vids@[t] == dm[d];
                        assert(actions@[a0.len() + t] == (DaemonAction::DestroyDevice {
                            virtual_id: dm[d],
                        }));
                    }
                    lemma_session_seq_remove(self.sessions@, i as int);
                }
                let _ = self.sessions.remove(i);
            },
            None => {},
        }
        proof {
            if old(self).controlling == Some(machine_id) {
                assert(actions@[0] == DaemonAction::ReleaseCapture);
                assert(actions@.contains(DaemonAction::ReleaseCapture));
            }
        }
        actions
    }

    /// React to the emulation backend having created a virtual device for a
    /// peer's announced device: record the mapping in that peer's session.
    /// If the session is gone, the device is destroyed again.
    pub fn handle_device_created(
        &mut self,
        machine_id: MachineId,
        info: DeviceInfo,
        virtual_id: VirtualDeviceId,
    ) -> (actions: Vec<DaemonAction>)
        requires
            old(self).wf(),
        ensures
            final(self).wf(),
            device_created_post(*old(self), machine_id, info, virtual_id, *final(self), actions@),

    {
        let mut actions: Vec<DaemonAction> = Vec::new();
        match self.find_session(machine_id) {
            Some(i) => {
                let ghost s0 = self.sessions@;
                self.sessions[i].record_device(info, virtual_id);
                proof {
                    lemma_session_seq_update(s0, i as int, self.sessions@[i as int]);
                    match self.controlling {
                        Some(q) => {
                            if q == machine_id {
                                assert(session_for_seq(s0, q) == s0[i as int]);
                            }
                        },
                        None => {},
                    }
                    match self.controlled_by {
                        Some(q) => {
                            if q == machine_id {
                                assert(session_for_seq(s0, q) == s0[i as int]);
                            }
                        },
                        None => {},
                    }
                }
            },
            None => {
                actions.push(DaemonAction::DestroyDevice { virtual_id });
            },
        }
        actions
    }

    /// React to a failed send on a peer's input stream: stop controlling it
    /// and give input back to the local desktop.
    pub fn handle_input_send_failed(&mut self, machine_id: MachineId) -> (actions: Vec<
        DaemonAction,
    >)
        requires
            old(self).wf(),
        ensures
            final(self).wf(),
            input_send_failed_post(*old(self), machine_id, *final(self), actions@),

    {
        let mut actions: Vec<DaemonAction> = Vec::new();
        if self.controlling == Some(machine_id) {
            self.controlling = None;
            actions.push(DaemonAction::ReleaseCapture);
            proof {
                assert(actions@ =~= seq![DaemonAction::ReleaseCapture]);
            }
        }
        actions
    }

    /// Take in a fully handshaked session. An existing session for the same
    /// machine is replaced, unless that machine currently holds or receives
    /// focus, in which case the new session is dropped.
    pub fn handle_session_ready(&mut self, session: PeerSession)
        requires
            old(self).wf(),
            session.wf(),
        ensures
            final(self).wf(),
            session_ready_post(*old(self), session, *final(self)),

    {
        if self.controlling == Some(session.machine_id) || self.controlled_by == Some(
            session.machine_id,
        ) {
            return ;
        }
        match self.find_session(session.machine_id) {
            Some(i) => {
                proof {
                    lemma_session_seq_remove(self.sessions@, i as int);
                }
                let ghost s1 = self.sessions@.remove(i as int);
                let _ = self.sessions.remove(i);
                proof {
                    lemma_session_seq_push(s1, session);
                }
                self.sessions.push(session);
            },
            None => {
                proof {
                    lemma_session_seq_push(self.sessions@, session);
                }
                self.sessions.push(session);
            },
        }
    }

    /// Shut down: produce a best-effort `Bye` and a connection close for
    /// every peer, and drop all sessions and focus.
    pub fn shutdown(&mut self) -> (actions: Vec<DaemonAction>)
        requires
            old(self).wf(),
        ensures
            final(self).wf(),
            final(self).sessions@.len() == 0,
            final(self).controlling is None,
            final(self).controlled_by is None,
            actions@.len() == 2 * old(self).sessions@.len(),
            forall|i: int|
                0 <= i < old(self).sessions@.len() ==> ((#[trigger] actions@[2 * i])
                    matches DaemonAction::SendControl { peer, msg } && peer
                    == old(self).sessions@[i].machine_id && msg@
                    == crate::message::ControlMessageV::Bye),
            forall|i: int|
                0 <= i < old(self).sessions@.len() ==> actions@[2 * i + 1]
                    == (DaemonAction::CloseConnection { peer: old(self).sessions@[i].machine_id }),
    {
        let mut actions: Vec<DaemonAction> = Vec::new();
        let mut i: usize = 0;
        while i < self.sessions.len()
            invariant
                i <= self.sessions@.len(),
                self.sessions@ == old(self).sessions@,
                actions@.len() == 2 * i,
                forall|t: int|
                    0 <= t < i ==> ((#[trigger] actions@[2 * t])
                        matches DaemonAction::SendControl { peer, msg } && peer
                        == self.sessions@[t].machine_id && msg@
                        == crate::message::ControlMessageV::Bye),
                forall|t: int|
                    0 <= t < i ==> actions@[2 * t + 1] == (DaemonAction::CloseConnection {
                        peer: self.sessions@[t].machine_id,
                    }),
            decreases self.sessions@.len() - i,
        {
            let peer = self.sessions[i].machine_id;
            let ghost pre = actions@;
            actions.push(DaemonAction::SendControl { peer, msg: ControlMessage::Bye });
            actions.push(DaemonAction::CloseConnection { peer });
            proof {
                assert forall|t: int| 0 <= t < pre.len() implies actions@[t] == pre[t] by {
                    assert(actions@ == pre.push(actions@[pre.len() as int]).push(actions@.last()));
                }
                assert(actions@[2 * (i as int)] == (DaemonAction::SendControl {
                    peer,
                    msg: ControlMessage::Bye,
                }));
                assert(actions@[2 * (i as int) + 1] == (DaemonAction::CloseConnection { peer }));
            }
            i = i + 1;
        }
        self.sessions = Vec::new();
        self.controlling = None;
        self.controlled_by = None;
        self.entry_edge = None;
        actions
    }
}

impl Daemon {
    /// React to an `EnterAck`: latch control of the acknowledging peer,
    /// unless it is unknown or someone controls us.
    fn on_enter_ack(&mut self, machine_id: MachineId) -> (actions: Vec<DaemonAction>)
        requires
            old(self).wf(),
        ensures
            final(self).wf(),
            *final(self) == (Daemon {
                sessions: final(self).sessions,
                controlling: final(self).controlling,
                ..*old(self)
            }),
            actions@.len() == 0,
            old(self).has_session(machine_id) && old(self).controlled_by is None ==> {
                &&& final(self).controlling == Some(machine_id)
                &&& final(self).has_session(machine_id)
                &&& final(self).session_for(machine_id) == (PeerSession {
                    state: crate::state::SessionState::Controlling,
                    ..old(self).session_for(machine_id)
                })
            },
            !(old(self).has_session(machine_id) && old(self).controlled_by is None) ==> final(self).sessions@ == old(self).sessions@ && final(self).controlling == old(self).controlling,
            forall|q: MachineId| #[trigger] final(self).has_session(q) <==> old(self).has_session(q),
            forall|q: MachineId|
                q != machine_id && old(self).has_session(q) ==> #[trigger] final(self).session_for(
                    q,
                ) == old(self).session_for(q),
    {
                if self.controlled_by.is_none() {
                    match self.find_session(machine_id) {
                        Some(i) => {
                            let ghost s0 = self.sessions@;
                            self.sessions[i].set_controlling();
                            proof {
                                lemma_session_seq_update(s0, i as int, self.sessions@[i as int]);
                                match self.controlling {
                                    Some(q) => {
                                        if q != machine_id {
                                            assert(session_for_seq(s0, q) == session_for_seq(
                                                self.sessions@,
                                                q,
                                            ));
                                        }
                                    },
                                    None => {},
                                }
                            }
                            self.controlling = Some(machine_id);
                        },
                        None => {},
                    }
                }
                Vec::new()
    }

    /// React to an `Enter`: become controlled by the peer (from its Idle
    /// session, while controlling nobody), acknowledge, and warp the cursor
    /// to the entry edge.
    fn on_enter(&mut self, machine_id: MachineId, edge: ScreenEdge, position: u32) -> (actions:
        Vec<DaemonAction>)
        requires
            old(self).wf(),
        ensures
            final(self).wf(),
            *final(self) == (Daemon {
                sessions: final(self).sessions,
                controlled_by: final(self).controlled_by,
                entry_edge: final(self).entry_edge,
                cursor_x: final(self).cursor_x,
                cursor_y: final(self).cursor_y,
                ..*old(self)
            }),
            ({
                let ok = old(self).has_session(machine_id) && old(self).session_for(
                    machine_id,
                ).state is Idle && old(self).controlling is None;
                &&& (ok ==> {
                    &&& final(self).controlled_by == Some(machine_id)
                    &&& final(self).entry_edge == Some(spec_opposite(edge))
                    &&& final(self).cursor_x == spec_warp(
                        old(self).screen,
                        spec_opposite(edge),
                        position,
                    ).0 as i32
                    &&& final(self).cursor_y == spec_warp(
                        old(self).screen,
                        spec_opposite(edge),
                        position,
                    ).1 as i32
                    &&& final(self).controlling is None
                    &&& final(self).has_session(machine_id)
                    &&& final(self).session_for(machine_id) == (PeerSession {
                        state: crate::state::SessionState::Controlled,
                        ..old(self).session_for(machine_id)
                    })
                    &&& actions@.len() == 2
                    &&& (actions@[0] matches DaemonAction::SendControl { peer, msg: m } && peer
                        == machine_id && m@ is EnterAck)
                    &&& actions@[1] == (DaemonAction::AcceptInputStream { peer: machine_id })
                })
                &&& (!ok ==> final(self).sessions@ == old(self).sessions@ && final(self).controlled_by == old(self).controlled_by && final(self).entry_edge == old(
                    self,
                ).entry_edge && final(self).cursor_x == old(self).cursor_x && final(self).cursor_y
                    == old(self).cursor_y && actions@.len() == 0)
            }),
            forall|q: MachineId| #[trigger] final(self).has_session(q) <==> old(self).has_session(q),
            forall|q: MachineId|
                q != machine_id && old(self).has_session(q) ==> #[trigger] final(self).session_for(
                    q,
                ) == old(self).session_for(q),
    {
                let mut actions: Vec<DaemonAction> = Vec::new();
                if self.controlling.is_none() {
                    match self.find_session(machine_id) {
                        Some(i) => {
                            let ghost s0 = self.sessions@;
                            let r = self.sessions[i].handle_enter();
                            proof {
                                lemma_session_seq_update(s0, i as int, self.sessions@[i as int]);
                                match self.controlled_by {
                                    Some(q) => {
                                        if q == machine_id {
                                            assert(session_for_seq(s0, q) == s0[i as int]);
                                        }
                                    },
                                    None => {},
                                }
                                assert(self.sessions@ =~= s0.update(
                                    i as int,
                                    self.sessions@[i as int],
                                ));
                            }
                            match r {
                                Ok(ack) => {
                                    self.controlled_by = Some(machine_id);
                                    let entry = edge.opposite();
                                    self.entry_edge = Some(entry);
                                    self.warp_cursor(entry, position);
                                    actions.push(
                                        DaemonAction::SendControl { peer: machine_id, msg: ack },
                                    );
                                    actions.push(
                                        DaemonAction::AcceptInputStream { peer: machine_id },
                                    );
                                },
                                Err(_) => {
                                    proof {
                                        assert(self.sessions@ =~= s0);
                                    }
                                },
                            }
                        },
                        None => {},
                    }
                }
                actions
    }

    /// React to a `Leave`: clear whichever side of the focus the sender
    /// held; as the former controller, route the cursor onward through the
    /// adjacency graph or take it back to the opposite edge.
    #[verifier::rlimit(100)]
    #[verifier::spinoff_prover]
    fn on_leave(&mut self, machine_id: MachineId, edge: ScreenEdge, position: u32) -> (actions:
        Vec<DaemonAction>)
        requires
            old(self).wf(),
        ensures
            final(self).wf(),
            *final(self) == (Daemon {
                sessions: final(self).sessions,
                controlling: final(self).controlling,
                controlled_by: final(self).controlled_by,
                entry_edge: final(self).entry_edge,
                cursor_x: final(self).cursor_x,
                cursor_y: final(self).cursor_y,
                ..*old(self)
            }),
            leave_post(*old(self), machine_id, edge, position, *final(self), actions@),
    {
                let mut actions: Vec<DaemonAction> = Vec::new();
                let was_controlled = self.controlled_by == Some(machine_id);
                let was_controlling = self.controlling == Some(machine_id);
                match self.find_session(machine_id) {
                    Some(i) => {
                        let ghost s0 = self.sessions@;
                        self.sessions[i].handle_leave();
                        proof {
                            lemma_session_seq_update(s0, i as int, self.sessions@[i as int]);
                            match self.controlling {
                                Some(q) => {
                                    if q != machine_id {
                                        assert(session_for_seq(s0, q) == session_for_seq(
                                            self.sessions@,
                                            q,
                                        ));
                                    }
                                },
                                None => {},
                            }
                            match self.controlled_by {
                                Some(q) => {
                                    if q != machine_id {
                                        assert(session_for_seq(s0, q) == session_for_seq(
                                            self.sessions@,
                                            q,
                                        ));
                                    }
                                },
                                None => {},
                            }
                        }
                    },
                    None => {},
                }
                if was_controlled {
                    self.controlled_by = None;
                    self.entry_edge = None;
                }
                if was_controlling {
                    self.controlling = None;
                    actions.push(DaemonAction::ReleaseCapture);
                    match self.find_session(machine_id) {
                        Some(i) => {
                            let pname = self.sessions[i].name.clone();
                            match self.lookup_adjacency(&pname, edge) {
                                Some(target) => {
                                    if target == self.config.identity.name {
                                        self.warp_cursor(edge.opposite(), position);
                                    } else {
                                        match self.find_session_by_name(&target) {
                                            Some(j) => {
                                                let tid = self.sessions[j].machine_id;
                                                let mut more = self.initiate_control(
                                                    tid,
                                                    edge,
                                                    position,
                                                );
                                                actions.append(&mut more);
                                            },
                                            None => {
                                                self.warp_cursor(edge.opposite(), position);
                                            },
                                        }
                                    }
                                },
                                None => {
                                    self.warp_cursor(edge.opposite(), position);
                                },
                            }
                        },
                        None => {
                            self.warp_cursor(edge.opposite(), position);
                        },
                    }
                    proof {
                        assert(actions@[0] == DaemonAction::ReleaseCapture);
                        assert(actions@.contains(DaemonAction::ReleaseCapture));
                    }
                }
                actions
    }

    /// React to a `DeviceGone`: drop the mapping and have the backend
    /// destroy the mirroring virtual device.
    fn on_device_gone(&mut self, machine_id: MachineId, device_id: DeviceId) -> (actions: Vec<
        DaemonAction,
    >)
        requires
            old(self).wf(),
        ensures
            final(self).wf(),
            *final(self) == (Daemon { sessions: final(self).sessions, ..*old(self) }),
            old(self).has_session(machine_id) ==> {
                &&& final(self).has_session(machine_id)
                &&& final(self).session_for(machine_id).device_map@ == old(self).session_for(
                    machine_id,
                ).device_map@.remove(device_id)
                &&& final(self).session_for(machine_id) == (PeerSession {
                    device_map: final(self).session_for(machine_id).device_map,
                    ..old(self).session_for(machine_id)
                })
            },
            old(self).has_session(machine_id) && old(self).session_for(
                machine_id,
            ).device_map@.contains_key(device_id) ==> actions@.len() == 1 && actions@[0]
                == (DaemonAction::DestroyDevice {
                virtual_id: old(self).session_for(machine_id).device_map@[device_id],
            }),
            !(old(self).has_session(machine_id) && old(self).session_for(
                machine_id,
            ).device_map@.contains_key(device_id)) ==> actions@.len() == 0,
            !old(self).has_session(machine_id) ==> final(self).sessions@ == old(self).sessions@,
            forall|q: MachineId| #[trigger] final(self).has_session(q) <==> old(self).has_session(q),
            forall|q: MachineId|
                q != machine_id && old(self).has_session(q) ==> #[trigger] final(self).session_for(
                    q,
                ) == old(self).session_for(q),
    {
                let mut actions: Vec<DaemonAction> = Vec::new();
                match self.find_session(machine_id) {
                    Some(i) => {
                        let ghost s0 = self.sessions@;
                        let r = self.sessions[i].remove_device(device_id);
                        proof {
                            lemma_session_seq_update(s0, i as int, self.sessions@[i as int]);
                            match self.controlling {
                                Some(q) => {
                                    if q == machine_id {
                                        assert(session_for_seq(s0, q) == s0[i as int]);
                                    }
                                },
                                None => {},
                            }
                            match self.controlled_by {
                                Some(q) => {
                                    if q == machine_id {
                                        assert(session_for_seq(s0, q) == s0[i as int]);
                                    }
                                },
                                None => {},
                            }
                        }
                        match r {
                            Some(virtual_id) => {
                                actions.push(DaemonAction::DestroyDevice { virtual_id });
                            },
                            None => {},
                        }
                    },
                    None => {},
                }
                actions
    }

    /// React to one control message from the peer `machine_id`.
    ///
    /// `Hello`, `Welcome`, and `ScreenUpdate` outside the handshake are
    /// ignored. `Enter` makes us controlled (from an Idle session, while not
    /// controlling anyone): it acknowledges, warps the cursor to the entry
    /// edge, and has the runtime accept the peer's input stream. `EnterAck`
    /// latches control of the peer. `Leave` clears whichever side of the
    /// focus the sender held; when we were the controller it also routes the
    /// cursor onward through the adjacency graph (multi-hop) or takes it
    /// back. Device announcements and withdrawals keep the emulation
    /// backend's virtual devices in step, `Ping` is answered with `Pong`,
    /// and `Bye` is a disconnect.
    #[verifier::rlimit(100)]
    #[verifier::spinoff_prover]
    pub fn handle_peer_control(&mut self, machine_id: MachineId, msg: ControlMessage) -> (actions:
        Vec<DaemonAction>)
        requires
            old(self).wf(),
        ensures
            final(self).wf(),
            peer_control_post(*old(self), machine_id, msg, *final(self), actions@),
    {
        match msg {
            ControlMessage::EnterAck => self.on_enter_ack(machine_id),
            ControlMessage::Enter { edge, position } => self.on_enter(
                machine_id,
                edge,
                position,
            ),
            ControlMessage::Leave { edge, position } => self.on_leave(
                machine_id,
                edge,
                position,
            ),
            ControlMessage::DeviceAnnounce(info) => {
                let mut actions: Vec<DaemonAction> = Vec::new();
                match self.find_session(machine_id) {
                    Some(_) => {
                        actions.push(DaemonAction::CreateDevice { peer: machine_id, info });
                    },
                    None => {},
                }
                actions
            },
            ControlMessage::DeviceGone { device_id } => self.on_device_gone(
                machine_id,
                device_id,
            ),
            ControlMessage::Ping { seq } => {
                let mut actions: Vec<DaemonAction> = Vec::new();
                match self.find_session(machine_id) {
                    Some(_) => {
                        actions.push(
                            DaemonAction::SendControl {
                                peer: machine_id,
                                msg: ControlMessage::Pong { seq },
                            },
                        );
                    },
                    None => {},
                }
                actions
            },
            ControlMessage::Bye => self.handle_peer_disconnected(machine_id),
            _ => Vec::new(),
        }
    }
}

impl Daemon {
    /// The first reverse barrier the cursor sits on, in configuration order,
    /// skipping the suppressed entry edge.
    fn check_reverse_barrier(&self) -> (r: Option<(ScreenEdge, u32)>)
        ensures
            r == spec_reverse_barrier(
                self.config.screens@,
                self.screen,
                self.cursor_x as int,
                self.cursor_y as int,
                self.entry_edge,
                0,
            ),
    {
        let mut i: usize = 0;
        while i < self.config.screens.len()
            invariant
                i <= self.config.screens@.len(),
                spec_reverse_barrier(
                    self.config.screens@,
                    self.screen,
                    self.cursor_x as int,
                    self.cursor_y as int,
                    self.entry_edge,
                    0,
                ) == spec_reverse_barrier(
                    self.config.screens@,
                    self.screen,
                    self.cursor_x as int,
                    self.cursor_y as int,
                    self.entry_edge,
                    i as int,
                ),
            decreases self.config.screens@.len() - i,
        {
            let edge = self.config.screens[i].position.local_edge();
            let suppressed = match self.entry_edge {
                Some(e) => e == edge,
                None => false,
            };
            if !suppressed && self.screen.is_at_edge(self.cursor_x, self.cursor_y, edge) {
                let c: i32 = match edge {
                    ScreenEdge::Left | ScreenEdge::Right => self.cursor_y,
                    ScreenEdge::Top | ScreenEdge::Bottom => self.cursor_x,
                };
                let pos: u32 = if c < 0 {
                    0
                } else {
                    c as u32
                };
                return Some((edge, pos));
            }
            i = i + 1;
        }
        None
    }

    /// React to one input message from the peer `machine_id`.
    ///
    /// Input is honoured only from the peer that controls us. Its relative
    /// mouse moves drag the virtual cursor; once the cursor has moved off
    /// the entry edge the suppression there ends; if the cursor then sits on
    /// a configured screen edge other than the suppressed one, a `Leave` is
    /// sent back to the controller, which decides the routing. Otherwise
    /// the batch is injected into the virtual device mirroring the source
    /// device; an unmapped device id drops the batch.
    #[verifier::rlimit(100)]
    #[verifier::spinoff_prover]
    pub fn handle_peer_input(&mut self, machine_id: MachineId, msg: InputMessage) -> (actions: Vec<
        DaemonAction,
    >)
        requires
            old(self).wf(),
        ensures
            final(self).wf(),
            peer_input_post(*old(self), machine_id, msg, *final(self), actions@),

    {
        if !(self.controlled_by == Some(machine_id)) {
            return Vec::new();
        }
        let ghost oldx = self.cursor_x as int;
        let ghost oldy = self.cursor_y as int;
        let mut k: usize = 0;
        proof {
            assert(msg.events@.skip(0) =~= msg.events@);
        }
        while k < msg.events.len()
            invariant
                k <= msg.events@.len(),
                self.screen_valid(),
                self.cursor_in_bounds(),
                *self == (Daemon { cursor_x: self.cursor_x, cursor_y: self.cursor_y, ..*old(self) }),
                apply_moves(
                    oldx,
                    oldy,
                    msg.events@,
                    self.screen.width,
                    self.screen.height,
                ) == apply_moves(
                    self.cursor_x as int,
                    self.cursor_y as int,
                    msg.events@.skip(k as int),
                    self.screen.width,
                    self.screen.height,
                ),
                oldx == old(self).cursor_x as int,
                oldy == old(self).cursor_y as int,
            decreases msg.events@.len() - k,
        {
            proof {
                assert(msg.events@.skip(k as int)[0] == msg.events@[k as int]);
                assert(msg.events@.skip(k as int).drop_first() =~= msg.events@.skip(k + 1));
            }
            match msg.events[k] {
                InputEvent::MouseMove { dx, dy } => {
                    self.cursor_x = clamp_add(self.cursor_x, dx, self.screen.width);
                    self.cursor_y = clamp_add(self.cursor_y, dy, self.screen.height);
                },
                _ => {},
            }
            k = k + 1;
        }
        proof {
            assert(msg.events@.skip(msg.events@.len() as int) =~= Seq::<InputEvent>::empty());
        }
        match self.entry_edge {
            Some(e) => {
                if !self.screen.is_at_edge(self.cursor_x, self.cursor_y, e) {
                    self.entry_edge = None;
                }
            },
            None => {},
        }
        let mut actions: Vec<DaemonAction> = Vec::new();
        match self.check_reverse_barrier() {
            Some((edge, pos)) => {
                match self.find_session(machine_id) {
                    Some(i) => {
                        let ghost s0 = self.sessions@;
                        let m = self.sessions[i].leave(edge, pos);
                        proof {
                            lemma_session_seq_update(s0, i as int, self.sessions@[i as int]);
                            match self.controlling {
                                Some(q) => {
                                    assert(old(self).focus_exclusive());
                                    assert(false);
                                },
                                None => {},
                            }
                        }
                        actions.push(DaemonAction::SendControl { peer: machine_id, msg: m });
                    },
                    None => {},
                }
                self.controlled_by = None;
                self.entry_edge = None;
                actions
            },
            None => {
                match self.find_session(machine_id) {
                    Some(i) => {
                        proof {
                            assert(self.sessions@[i as int].wf());
                        }
                        match self.sessions[i].device_map.get(msg.device_id) {
                            Some(virtual_id) => {
                                let mut t: usize = 0;
                                while t < msg.events.len()
                                    invariant
                                        t <= msg.events@.len(),
                                        actions@.len() == t,
                                        forall|u: int|
                                            0 <= u < t ==> actions@[u] == (DaemonAction::Inject {
                                                virtual_id,
                                                event: msg.events@[u],
                                            }),
                                    decreases msg.events@.len() - t,
                                {
                                    let ghost pre = actions@;
                                    actions.push(
                                        DaemonAction::Inject {
                                            virtual_id,
                                            event: msg.events[t],
                                        },
                                    );
                                    proof {
                                        assert forall|u: int|
                                            0 <= u < pre.len() implies actions@[u] == pre[u] by {
                                            assert(actions@ == pre.push(actions@.last()));
                                        }
                                    }
                                    t = t + 1;
                                }
                                actions
                            },
                            None => actions,
                        }
                    },
                    None => actions,
                }
            },
        }
    }

    /// Dispatch one event to its handler. The second component is the
    /// shutdown flag: true exactly for a `Shutdown` event, on which the
    /// runtime exits its loop and calls `shutdown`.
    pub fn handle_event(&mut self, event: DaemonEvent) -> (r: (Vec<DaemonAction>, bool))
        requires
            old(self).wf(),
            event matches DaemonEvent::SessionReady { session } ==> session.wf(),
        ensures
            final(self).wf(),
            r.1 <==> event is Shutdown,
            event matches DaemonEvent::CapturedInput(captured) ==> captured_input_post(
                *old(self),
                captured,
                *final(self),
                r.0@,
            ),
            event matches DaemonEvent::PeerControl { machine_id, msg } ==> peer_control_post(
                *old(self),
                machine_id,
                msg,
                *final(self),
                r.0@,
            ),
            event matches DaemonEvent::PeerInput { machine_id, msg } ==> peer_input_post(
                *old(self),
                machine_id,
                msg,
                *final(self),
                r.0@,
            ),
            event matches DaemonEvent::PeerDisconnected(machine_id) ==> peer_disconnected_post(
                *old(self),
                machine_id,
                *final(self),
                r.0@,
            ),
            event matches DaemonEvent::SessionReady { session } ==> session_ready_post(
                *old(self),
                session,
                *final(self),
            ) && r.0@.len() == 0,
            event matches DaemonEvent::DeviceCreated { machine_id, info, virtual_id }
                ==> device_created_post(
                *old(self),
                machine_id,
                info,
                virtual_id,
                *final(self),
                r.0@,
            ),
            event matches DaemonEvent::InputSendFailed(machine_id) ==> input_send_failed_post(
                *old(self),
                machine_id,
                *final(self),
                r.0@,
            ),
            event is Shutdown ==> *final(self) == *old(self) && r.0@.len() == 0,
    {
        match event {
            DaemonEvent::CapturedInput(captured) => (self.handle_captured_input(captured), false),
            DaemonEvent::PeerControl { machine_id, msg } => (
                self.handle_peer_control(machine_id, msg),
                false,
            ),
            DaemonEvent::PeerInput { machine_id, msg } => (
                self.handle_peer_input(machine_id, msg),
                false,
            ),
            DaemonEvent::PeerDisconnected(machine_id) => (
                self.handle_peer_disconnected(machine_id),
                false,
            ),
            DaemonEvent::SessionReady { session } => {
                self.handle_session_ready(session);
                (Vec::new(), false)
            },
            DaemonEvent::DeviceCreated { machine_id, info, virtual_id } => (
                self.handle_device_created(machine_id, info, virtual_id),
                false,
            ),
            DaemonEvent::InputSendFailed(machine_id) => (
                self.handle_input_send_failed(machine_id),
                false,
            ),
            DaemonEvent::Shutdown => (Vec::new(), true),
        }
    }
}

/// Law: a well-formed engine never both drives a remote and is driven by
/// one. Every event handler preserves well-formedness, so this holds at
/// every step of a run.
pub proof fn lemma_focus_exclusive(d: Daemon)
    requires
        d.wf(),
    ensures
        !(d.controlling is Some && d.controlled_by is Some),
{
}

/// Law: while an engine controls a peer, that peer's session exists and is
/// in the Controlling state; symmetrically for a controlling peer.
pub proof fn lemma_focus_session_states(d: Daemon)
    requires
        d.wf(),
    ensures
        d.controlling matches Some(p) ==> d.has_session(p) && d.session_for(
            p,
        ).state is Controlling,
        d.controlled_by matches Some(p) ==> d.has_session(p) && d.session_for(
            p,
        ).state is Controlled,
{
}

/// Law: the virtual cursor stays inside the screen box, whatever sequence
/// of mouse events has been applied.
pub proof fn lemma_cursor_in_bounds(d: Daemon)
    requires
        d.wf(),
    ensures
        0 <= d.cursor_x < eff_dim(d.screen.width),
        0 <= d.cursor_y < eff_dim(d.screen.height),
{
}

/// What handling one captured local input event did: the pressed-key set
/// updated; then either control released on a completed chord, the event
/// forwarded to the controlled peer, or (at idle) the cursor dragged and a
/// barrier crossing answered with an `Enter` to the neighbour.
pub open spec fn captured_input_post(pre: Daemon, captured: CapturedEvent, post: Daemon, actions: Seq<DaemonAction>) -> bool {
    &&& (post.hotkey_pressed@ == spec_update_hotkey(
                pre.hotkey_pressed@,
                captured.event,
            ))
    &&& (post.controlled_by == pre.controlled_by)
    &&& (post.entry_edge == pre.entry_edge)
    &&& (post.config == pre.config)
    &&& (({
                let pressed2 = spec_update_hotkey(pre.hotkey_pressed@, captured.event);
                let sat = chord_satisfied(pre.config.input.release_hotkey@, pressed2);
                &&& (pre.controlling matches Some(p) ==> sat ==> (
                    post.controlling is None
                    && post.controlled_by is None
                    && post.cursor_x == spec_centre(pre.screen.width) as i32
                    && post.cursor_y == spec_centre(pre.screen.height) as i32
                    && (pre.has_session(p) ==> (
                        actions.len() == 2
                        && (actions[0] matches DaemonAction::SendControl { peer, msg }
                            && peer == p
                            && msg@ == (crate::message::ControlMessageV::Leave {
                            edge: ScreenEdge::Left,
                            position: 0,
                        }))
                        && actions[1] == DaemonAction::ReleaseCapture
                        && post.has_session(p)
                        && post.session_for(p).state is Idle
                        && !post.session_for(p).input_open))
                    && (!pre.has_session(p) ==> actions.len() == 1 && actions[0]
                        == DaemonAction::ReleaseCapture)))
                &&& (pre.controlling matches Some(p) ==> !sat ==> (
                    post.controlling == pre.controlling
                    && post.cursor_x == pre.cursor_x
                    && post.cursor_y == pre.cursor_y
                    && post.sessions@ == pre.sessions@
                    && (pre.has_session(p) && pre.session_for(p).input_open ==> (
                        actions.len() == 1
                        && (actions[0] matches DaemonAction::SendInput { peer, msg }
                            && peer == p
                            && msg.device_id == captured.device_id
                            && msg.timestamp_us == captured.timestamp_us
                            && msg.events@ == seq![captured.event])))
                    && (!(pre.has_session(p) && pre.session_for(p).input_open)
                        ==> actions.len() == 0)))
                &&& (pre.controlling is None ==> {
                    let mid = Daemon {
                        cursor_x: (match captured.event {
                            InputEvent::MouseMove { dx, dy } => clamp_coord(
                                pre.cursor_x + dx,
                                pre.screen.width,
                            ),
                            _ => pre.cursor_x as int,
                        }) as i32,
                        cursor_y: (match captured.event {
                            InputEvent::MouseMove { dx, dy } => clamp_coord(
                                pre.cursor_y + dy,
                                pre.screen.height,
                            ),
                            _ => pre.cursor_y as int,
                        }) as i32,
                        hotkey_pressed: post.hotkey_pressed,
                        ..pre
                    };
                    &&& post.controlling is None
                    &&& post.cursor_x == mid.cursor_x
                    &&& post.cursor_y == mid.cursor_y
                    &&& (!(captured.event is MouseMove) ==> post.sessions@ == pre.sessions@ && actions.len() == 0)
                    &&& (spec_barrier_from(mid, 0) matches Some((pid, edge, pos))
                        ==> captured.event is MouseMove ==> (
                        (mid.has_session(pid) && mid.session_for(pid).state is Idle ==> (
                            post.sessions@ == pre.sessions@.update(
                                mid.session_index(pid),
                                PeerSession {
                                    state: crate::state::SessionState::Controlling,
                                    input_open: true,
                                    ..mid.session_for(pid)
                                },
                            )
                            && actions.len() == 2
                            && actions[0] == (DaemonAction::OpenInputStream { peer: pid })
                            && (actions[1] matches DaemonAction::SendControl { peer, msg }
                                && peer == pid
                                && msg@ == (crate::message::ControlMessageV::Enter {
                                edge,
                                position: pos,
                            }))))
                        && (!(mid.has_session(pid) && mid.session_for(pid).state is Idle) ==> (
                            post.sessions@ == pre.sessions@
                            && actions.len() == 0))))
                    &&& (captured.event is MouseMove && spec_barrier_from(mid, 0) is None
                        ==> post.sessions@ == pre.sessions@ && actions.len() == 0)
                })
            }))
}

/// What handling a peer's disconnect did: its session dropped, any focus it
/// held cleared, a destroy action for every virtual device it created, and
/// nothing else touched.
pub open spec fn peer_disconnected_post(pre: Daemon, machine_id: MachineId, post: Daemon, actions: Seq<DaemonAction>) -> bool {
    &&& (!post.has_session(machine_id))
    &&& (forall|p: MachineId|
                p != machine_id ==> (#[trigger] post.has_session(p) <==> pre.has_session(p)))
    &&& (post.controlling == (if pre.controlling == Some(machine_id) {
                None
            } else {
                pre.controlling
            }))
    &&& (post.controlled_by == (if pre.controlled_by == Some(machine_id) {
                None
            } else {
                pre.controlled_by
            }))
    &&& (pre.controlled_by == Some(machine_id) ==> post.entry_edge is None)
    &&& (pre.controlled_by != Some(machine_id) ==> post.entry_edge == pre.entry_edge)
    &&& (post.cursor_x == pre.cursor_x)
    &&& (post.cursor_y == pre.cursor_y)
    &&& (post.config == pre.config)
    &&& (post.hotkey_pressed == pre.hotkey_pressed)
    &&& (post == (Daemon {
                sessions: post.sessions,
                controlling: post.controlling,
                controlled_by: post.controlled_by,
                entry_edge: post.entry_edge,
                ..pre
            }))
    &&& (forall|p: MachineId|
                p != machine_id && pre.has_session(p) ==> #[trigger] post.session_for(
                    p,
                ) == pre.session_for(p))
    &&& (pre.controlling == Some(machine_id) ==> actions.contains(
                DaemonAction::ReleaseCapture,
            ))
    &&& (pre.has_session(machine_id) ==> forall|d: DeviceId| #[trigger]
                pre.session_for(machine_id).device_map@.contains_key(d) ==> actions.contains(
                    DaemonAction::DestroyDevice {
                        virtual_id: pre.session_for(machine_id).device_map@[d],
                    },
                ))
}

/// What recording a created virtual device did: the mapping and the
/// announced device added to the peer's session, or the device destroyed
/// again when the session is gone.
pub open spec fn device_created_post(pre: Daemon, machine_id: MachineId, info: DeviceInfo, virtual_id: VirtualDeviceId, post: Daemon, actions: Seq<DaemonAction>) -> bool {
    &&& (post.controlling == pre.controlling)
    &&& (post.controlled_by == pre.controlled_by)
    &&& (post.entry_edge == pre.entry_edge)
    &&& (post.cursor_x == pre.cursor_x)
    &&& (post.cursor_y == pre.cursor_y)
    &&& (post.config == pre.config)
    &&& (pre.has_session(machine_id) ==> {
                &&& actions.len() == 0
                &&& post.has_session(machine_id)
                &&& post.session_for(machine_id).device_map@ == pre.session_for(
                    machine_id,
                ).device_map@.insert(info@.id, virtual_id)
                &&& post.session_for(machine_id).remote_devices@ == pre.session_for(
                    machine_id,
                ).remote_devices@.push(info)
                &&& post.session_for(machine_id).state == pre.session_for(
                    machine_id,
                ).state
                &&& (forall|p: MachineId|
                    p != machine_id ==> (#[trigger] post.has_session(p) <==> pre.has_session(p)))
                &&& (forall|p: MachineId|
                    p != machine_id && pre.has_session(p) ==> #[trigger] post.session_for(p)
                        == pre.session_for(p))
            })
    &&& (!pre.has_session(machine_id) ==> post.sessions@ == pre.sessions@
                && actions.len() == 1 && actions[0] == (DaemonAction::DestroyDevice {
                virtual_id,
            }))
}

/// What a failed input send did: control of that peer dropped and the
/// capture released; anything else is untouched.
pub open spec fn input_send_failed_post(pre: Daemon, machine_id: MachineId, post: Daemon, actions: Seq<DaemonAction>) -> bool {
    &&& (pre.controlling == Some(machine_id) ==> post.controlling is None
                && actions == seq![DaemonAction::ReleaseCapture])
    &&& (pre.controlling != Some(machine_id) ==> post == pre
                && actions.len() == 0)
    &&& (post == (Daemon { controlling: post.controlling, ..pre }))
}

/// What taking in a handshaked session did: stored (replacing any older
/// session for the same machine), unless that machine holds or receives
/// focus, in which case it is dropped.
pub open spec fn session_ready_post(pre: Daemon, session: PeerSession, post: Daemon) -> bool {
    &&& (post == (Daemon { sessions: post.sessions, ..pre }))
    &&& (pre.controlling == Some(session.machine_id) || pre.controlled_by == Some(
                session.machine_id,
            ) ==> post.sessions@ == pre.sessions@)
    &&& (!(pre.controlling == Some(session.machine_id) || pre.controlled_by == Some(
                session.machine_id,
            )) ==> {
                &&& post.has_session(session.machine_id)
                &&& post.session_for(session.machine_id) == session
                &&& (forall|p: MachineId|
                    p != session.machine_id ==> (#[trigger] post.has_session(p) <==> pre.has_session(p)))
                &&& (forall|p: MachineId|
                    p != session.machine_id && pre.has_session(p) ==> #[trigger] post.session_for(p)
                        == pre.session_for(p))
            })
}

/// What a `Leave` from this peer did: the sender's side of the focus is
/// cleared; as the former controller, the cursor is routed onward through
/// the adjacency graph (an `Enter` to the next screen's Idle session) or
/// taken back to the opposite edge.
pub open spec fn leave_post(
    pre: Daemon,
    machine_id: MachineId,
    edge: ScreenEdge,
    position: u32,
    post: Daemon,
    actions: Seq<DaemonAction>,
) -> bool {
                &&& post.controlled_by == (if pre.controlled_by == Some(machine_id) {
                    None
                } else {
                    pre.controlled_by
                })
                &&& post.controlling == (if pre.controlling == Some(machine_id) {
                    None
                } else {
                    pre.controlling
                })
                &&& (pre.controlled_by == Some(machine_id) ==> {
                    &&& post.entry_edge is None
                    &&& actions.len() == 0
                    &&& post.cursor_x == pre.cursor_x
                    &&& post.cursor_y == pre.cursor_y
                    &&& (pre.has_session(machine_id) ==> post.has_session(machine_id)
                        && post.session_for(machine_id).state is Idle)
                })
                &&& (pre.controlled_by != Some(machine_id) ==> post.entry_edge == pre.entry_edge)
                &&& (pre.controlling == Some(machine_id) ==> actions.len() >= 1
                    && actions[0] == DaemonAction::ReleaseCapture)
                &&& (pre.controlling == Some(machine_id) && !pre.has_session(
                    machine_id,
                ) ==> post.cursor_x == spec_warp(
                    pre.screen,
                    spec_opposite(edge),
                    position,
                ).0 as i32 && post.cursor_y == spec_warp(
                    pre.screen,
                    spec_opposite(edge),
                    position,
                ).1 as i32 && actions.len() == 1)
                &&& (pre.controlling == Some(machine_id) && pre.has_session(machine_id)
                    ==> {
                    let pname = pre.session_for(machine_id).name@;
                    let m = adj_map(pre.adjacency@);
                    let mid = pre.sessions@.update(
                        pre.session_index(machine_id),
                        PeerSession {
                            state: crate::state::SessionState::Idle,
                            ..pre.session_for(machine_id)
                        },
                    );
                    let back = !m.contains_key((pname, edge)) || m[(pname, edge)] == pre.config.identity.name@;
                    &&& (back ==> {
                        &&& post.cursor_x == spec_warp(
                            pre.screen,
                            spec_opposite(edge),
                            position,
                        ).0 as i32
                        &&& post.cursor_y == spec_warp(
                            pre.screen,
                            spec_opposite(edge),
                            position,
                        ).1 as i32
                        &&& actions.len() == 1
                        &&& post.has_session(machine_id)
                        &&& post.session_for(machine_id).state is Idle
                    })
                    &&& (!back ==> {
                        let target = m[(pname, edge)];
                        &&& (spec_first_session_named(mid, target, 0) matches Some(j) ==> {
                            let tid = mid[j].machine_id;
                            &&& (mid[j].state is Idle ==> {
                                &&& post.has_session(tid)
                                &&& post.session_for(tid).state is Controlling
                                &&& post.session_for(tid).input_open
                                &&& post.cursor_x == pre.cursor_x
                                &&& post.cursor_y == pre.cursor_y
                                &&& actions.len() == 3
                                &&& actions[1] == (DaemonAction::OpenInputStream { peer: tid })
                                &&& (actions[2] matches DaemonAction::SendControl {
                                    peer,
                                    msg: m2,
                                } && peer == tid && m2@ == (ControlMessageV::Enter {
                                    edge,
                                    position,
                                }))
                                &&& (tid != machine_id ==> post.has_session(machine_id)
                                    && post.session_for(machine_id).state is Idle)
                            })
                            &&& (!(mid[j].state is Idle) ==> actions.len() == 1 && post.cursor_x == pre.cursor_x && post.cursor_y == pre.cursor_y && post.has_session(machine_id) && post.session_for(machine_id).state is Idle)
                        })
                        &&& (spec_first_session_named(mid, target, 0) is None ==> {
                            &&& post.cursor_x == spec_warp(
                                pre.screen,
                                spec_opposite(edge),
                                position,
                            ).0 as i32
                            &&& post.cursor_y == spec_warp(
                                pre.screen,
                                spec_opposite(edge),
                                position,
                            ).1 as i32
                            &&& actions.len() == 1
                            &&& post.has_session(machine_id)
                            &&& post.session_for(machine_id).state is Idle
                        })
                    })
                })
                &&& (pre.controlling != Some(machine_id) && pre.controlled_by != Some(
                    machine_id,
                ) ==> post.cursor_x == pre.cursor_x && post.cursor_y == pre.cursor_y && actions.len() == 0)
}

/// What handling one control message did, case by case: `EnterAck` latches
/// control, `Enter` makes us controlled and warps the cursor, `Leave`
/// clears the sender's side of the focus and routes the cursor onward
/// through the adjacency graph or takes it back, device announcements and
/// withdrawals drive the emulation actions, `Ping` is answered with `Pong`,
/// `Bye` disconnects, and the rest change nothing.
pub open spec fn peer_control_post(pre: Daemon, machine_id: MachineId, msg: ControlMessage, post: Daemon, actions: Seq<DaemonAction>) -> bool {
    &&& (post.config == pre.config)
    &&& (post.machine_id == pre.machine_id)
    &&& (post.screen == pre.screen)
    &&& (post.adjacency == pre.adjacency)
    &&& (post.local_devices == pre.local_devices)
    &&& (post.hotkey_pressed == pre.hotkey_pressed)
    &&& (!(msg@ is Enter) && !(msg@ is Leave) ==> post.cursor_x == pre.cursor_x
                && post.cursor_y == pre.cursor_y)
    &&& (!(msg@ is Enter) && !(msg@ is Leave) && !(msg@ is Bye) ==> post.entry_edge
                == pre.entry_edge)
    &&& (msg@ is EnterAck ==> {
                &&& post.controlled_by == pre.controlled_by
                &&& actions.len() == 0
                &&& (pre.has_session(machine_id) && pre.controlled_by is None ==> {
                    &&& post.controlling == Some(machine_id)
                    &&& post.has_session(machine_id)
                    &&& post.session_for(machine_id) == (PeerSession {
                        state: crate::state::SessionState::Controlling,
                        ..pre.session_for(machine_id)
                    })
                })
                &&& (!(pre.has_session(machine_id) && pre.controlled_by is None)
                    ==> post.sessions@ == pre.sessions@ && post.controlling
                    == pre.controlling)
                &&& (forall|q: MachineId|
                    #[trigger] post.has_session(q) <==> pre.has_session(q))
                &&& (forall|q: MachineId|
                    q != machine_id && pre.has_session(q) ==> #[trigger] post.session_for(q)
                        == pre.session_for(q))
            })
    &&& (msg@ matches ControlMessageV::Enter { edge, position } ==> {
                let ok = pre.has_session(machine_id) && pre.session_for(
                    machine_id,
                ).state is Idle && pre.controlling is None;
                &&& (ok ==> {
                    &&& post.controlled_by == Some(machine_id)
                    &&& post.entry_edge == Some(spec_opposite(edge))
                    &&& post.cursor_x == spec_warp(
                        pre.screen,
                        spec_opposite(edge),
                        position,
                    ).0 as i32
                    &&& post.cursor_y == spec_warp(
                        pre.screen,
                        spec_opposite(edge),
                        position,
                    ).1 as i32
                    &&& post.controlling is None
                    &&& post.has_session(machine_id)
                    &&& post.session_for(machine_id) == (PeerSession {
                        state: crate::state::SessionState::Controlled,
                        ..pre.session_for(machine_id)
                    })
                    &&& actions.len() == 2
                    &&& (actions[0] matches DaemonAction::SendControl { peer, msg: m } && peer
                        == machine_id && m@ is EnterAck)
                    &&& actions[1] == (DaemonAction::AcceptInputStream { peer: machine_id })
                })
                &&& (forall|q: MachineId|
                    #[trigger] post.has_session(q) <==> pre.has_session(q))
                &&& (forall|q: MachineId|
                    q != machine_id && pre.has_session(q) ==> #[trigger] post.session_for(q)
                        == pre.session_for(q))
                &&& (!ok ==> post.sessions@ == pre.sessions@ && post.controlled_by == pre.controlled_by && post.controlling == pre.controlling && post.entry_edge == pre.entry_edge && post.cursor_x == pre.cursor_x && post.cursor_y == pre.cursor_y
                    && actions.len() == 0)
            })
    &&& (msg@ matches ControlMessageV::Leave { edge, position } ==> leave_post(
        pre,
        machine_id,
        edge,
        position,
        post,
        actions,
    ))
    &&& (msg@ matches ControlMessageV::DeviceAnnounce(info) ==> {
                &&& post.sessions@ == pre.sessions@
                &&& post.controlling == pre.controlling
                &&& post.controlled_by == pre.controlled_by
                &&& (pre.has_session(machine_id) ==> actions.len() == 1 && (actions[0]
                    matches DaemonAction::CreateDevice { peer, info: i2 } && peer == machine_id
                    && i2@ == info))
                &&& (!pre.has_session(machine_id) ==> actions.len() == 0)
            })
    &&& (msg@ matches ControlMessageV::DeviceGone { device_id } ==> {
                &&& post.controlling == pre.controlling
                &&& post.controlled_by == pre.controlled_by
                &&& (pre.has_session(machine_id) ==> {
                    &&& post.has_session(machine_id)
                    &&& post.session_for(machine_id).device_map@ == pre.session_for(
                        machine_id,
                    ).device_map@.remove(device_id)
                    &&& post.session_for(machine_id) == (PeerSession {
                        device_map: post.session_for(machine_id).device_map,
                        ..pre.session_for(machine_id)
                    })
                })
                &&& (pre.has_session(machine_id) && pre.session_for(
                    machine_id,
                ).device_map@.contains_key(device_id) ==> {
                    &&& actions.len() == 1
                    &&& actions[0] == (DaemonAction::DestroyDevice {
                        virtual_id: pre.session_for(machine_id).device_map@[device_id],
                    })
                })
                &&& (!(pre.has_session(machine_id) && pre.session_for(
                    machine_id,
                ).device_map@.contains_key(device_id)) ==> actions.len() == 0)
                &&& (forall|q: MachineId|
                    #[trigger] post.has_session(q) <==> pre.has_session(q))
                &&& (forall|q: MachineId|
                    q != machine_id && pre.has_session(q) ==> #[trigger] post.session_for(q)
                        == pre.session_for(q))
            })
    &&& (msg@ matches ControlMessageV::Ping { seq } ==> {
                &&& post.sessions@ == pre.sessions@
                &&& post.controlling == pre.controlling
                &&& post.controlled_by == pre.controlled_by
                &&& (pre.has_session(machine_id) ==> actions.len() == 1 && (actions[0]
                    matches DaemonAction::SendControl { peer, msg: m } && peer == machine_id && m@
                    == (crate::message::ControlMessageV::Pong { seq })))
                &&& (!pre.has_session(machine_id) ==> actions.len() == 0)
            })
    &&& (msg@ is Pong || msg@ is Hello || msg@ is Welcome || msg@ is ScreenUpdate ==> post == pre && actions.len() == 0)
    &&& (msg@ is Bye ==> {
                &&& !post.has_session(machine_id)
                &&& post.controlling == (if pre.controlling == Some(machine_id) {
                    None
                } else {
                    pre.controlling
                })
                &&& post.controlled_by == (if pre.controlled_by == Some(machine_id) {
                    None
                } else {
                    pre.controlled_by
                })
                &&& (pre.controlled_by == Some(machine_id) ==> post.entry_edge is None)
                &&& (pre.controlled_by != Some(machine_id) ==> post.entry_edge == pre.entry_edge)
                &&& (pre.controlling == Some(machine_id) ==> actions.contains(
                    DaemonAction::ReleaseCapture,
                ))
                &&& (forall|p: MachineId|
                    p != machine_id ==> (#[trigger] post.has_session(p) <==> pre.has_session(p)))
                &&& (forall|p: MachineId|
                    p != machine_id && pre.has_session(p) ==> #[trigger] post.session_for(p) == pre.session_for(p))
                &&& (pre.has_session(machine_id) ==> forall|d: DeviceId| #[trigger]
                    pre.session_for(machine_id).device_map@.contains_key(d)
                        ==> actions.contains(
                        DaemonAction::DestroyDevice {
                            virtual_id: pre.session_for(machine_id).device_map@[d],
                        },
                    ))
            })
}

/// What handling one input message did: honoured only from the controlling
/// peer; mouse moves drag the cursor, the entry-edge suppression ends once
/// the cursor leaves that edge, a reverse barrier answers with `Leave`,
/// and otherwise the batch is injected into the mirroring virtual device.
pub open spec fn peer_input_post(pre: Daemon, machine_id: MachineId, msg: InputMessage, post: Daemon, actions: Seq<DaemonAction>) -> bool {
    &&& (post.config == pre.config)
    &&& (post.controlling == pre.controlling)
    &&& (pre.controlled_by != Some(machine_id) ==> post == pre
                && actions.len() == 0)
    &&& (pre.controlled_by == Some(machine_id) ==> {
                let moved = apply_moves(
                    pre.cursor_x as int,
                    pre.cursor_y as int,
                    msg.events@,
                    pre.screen.width,
                    pre.screen.height,
                );
                let entry2 = match pre.entry_edge {
                    Some(e) => if !pre.screen.spec_at_edge(moved.0, moved.1, e) {
                        None
                    } else {
                        Some(e)
                    },
                    None => None,
                };
                let rb = spec_reverse_barrier(
                    pre.config.screens@,
                    pre.screen,
                    moved.0,
                    moved.1,
                    entry2,
                    0,
                );
                &&& post.cursor_x == moved.0
                &&& post.cursor_y == moved.1
                &&& (rb matches Some((edge, pos)) ==> {
                    &&& post.controlled_by is None
                    &&& post.entry_edge is None
                    &&& (pre.has_session(machine_id) ==> actions.len() == 1 && (actions[0]
                        matches DaemonAction::SendControl { peer, msg: m } && peer == machine_id
                        && m@ == (ControlMessageV::Leave { edge, position: pos })) && post.session_for(machine_id).state is Idle)
                })
                &&& (rb is None ==> {
                    &&& post.controlled_by == pre.controlled_by
                    &&& post.entry_edge == entry2
                    &&& post.sessions@ == pre.sessions@
                    &&& (pre.has_session(machine_id) && pre.session_for(
                        machine_id,
                    ).device_map@.contains_key(msg.device_id) ==> actions.len()
                        == msg.events@.len() && (forall|t: int|
                        0 <= t < msg.events@.len() ==> actions[t] == (DaemonAction::Inject {
                            virtual_id: pre.session_for(machine_id).device_map@[
                                msg.device_id
                            ],
                            event: msg.events@[t],
                        })))
                    &&& (!(pre.has_session(machine_id) && pre.session_for(
                        machine_id,
                    ).device_map@.contains_key(msg.device_id)) ==> actions.len() == 0)
                })
            })
}

} // verus!
