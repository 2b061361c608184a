//! Peer session management: handshake, enter/leave, device bookkeeping.
//!
//! A session is pure state. Methods that the wire protocol drives take the
//! received message as an argument and return the message to transmit; the
//! surrounding runtime owns the streams and performs the sends, opening the
//! outbound input stream before it transmits an `Enter` so the peer finds
//! the stream when it reacts.

use vstd::prelude::*;
use vstd::string::StringExecFns;

use crate::devmap::DeviceMap;
use crate::device::DeviceInfo;
use crate::errors::DaemonError;
use crate::errors::ProtocolError;
use crate::machine::MachineId;
use crate::message::spec_protocol_version;
use crate::message::verify_version;
use crate::message::ControlMessage;
use crate::message::ControlMessageV;
use crate::message::protocol_version;
use crate::message::InputMessage;
use crate::message::PROTOCOL_MAJOR;
use crate::screen::ScreenEdge;
use crate::screen::ScreenGeometry;
use crate::state::SessionState;

verus! {

/// A session with a single remote peer.
#[derive(Debug)]
pub struct PeerSession {
    /// The remote machine's identity, recorded by the handshake.
    pub machine_id: MachineId,
    /// The remote machine's name, recorded by the handshake.
    pub name: String,
    /// The remote machine's screen, recorded by the handshake.
    pub remote_screen: ScreenGeometry,
    /// Where in the protocol this session stands.
    pub state: SessionState,
    /// Whether the outbound input stream is open (controller side).
    pub input_open: bool,
    /// Map from remote device ID to local virtual device ID.
    pub device_map: DeviceMap,
    /// Devices announced by the remote peer.
    pub remote_devices: Vec<DeviceInfo>,
}

impl PeerSession {
    /// Internal well-formedness.
    pub open spec fn wf(self) -> bool {
        self.device_map.wf()
    }

    /// Create a new session for an accepted or initiated connection.
    pub fn new() -> (r: Self)
        ensures
            r.wf(),
            r.machine_id == MachineId(0),
            r.name@ == Seq::<char>::empty(),
            r.remote_screen == (ScreenGeometry { width: 1920, height: 1080, x: 0, y: 0 }),
            r.state is Connected,
            !r.input_open,
            r.device_map@ == Map::<crate::device::DeviceId, crate::device::VirtualDeviceId>::empty(),
            r.remote_devices@ =~= Seq::<DeviceInfo>::empty(),
    {
        PeerSession {
            machine_id: MachineId(0),
            name: String::new(),
            remote_screen: ScreenGeometry::new(1920, 1080),
            state: SessionState::Connected,
            input_open: false,
            device_map: DeviceMap::new(),
            remote_devices: Vec::new(),
        }
    }

    /// Initiator handshake, first half: produce the Hello to transmit on the
    /// control stream and wait for the Welcome.
    pub fn handshake_initiator_hello(
        &mut self,
        our_id: MachineId,
        our_name: &String,
        our_screen: &ScreenGeometry,
    ) -> (r: ControlMessage)
        requires
            old(self).wf(),
        ensures
            final(self).wf(),
            *final(self) == (PeerSession { state: SessionState::HelloSent, ..*old(self) }),
            r@ == (ControlMessageV::Hello {
                version: spec_protocol_version(),
                machine_id: our_id,
                name: our_name@,
                screen: *our_screen,
            }),
    {
        self.state = SessionState::HelloSent;
        ControlMessage::Hello {
            version: protocol_version(),
            machine_id: our_id,
            name: our_name.clone(),
            screen: *our_screen,
        }
    }

    /// Initiator handshake, second half: consume the peer's reply. On a
    /// Welcome with a matching major version, record the remote identity and
    /// become Idle; anything else is rejected and leaves the session as it
    /// was.
    pub fn handshake_initiator_finish(&mut self, reply: &ControlMessage) -> (r: Result<
        (),
        DaemonError,
    >)
        requires
            old(self).wf(),
        ensures
            final(self).wf(),
            r is Ok <==> (reply@ matches ControlMessageV::Welcome { version, .. }
                && version.major == PROTOCOL_MAJOR),
            r is Ok ==> (reply@ matches ControlMessageV::Welcome { version, machine_id, name, screen }
                && *final(self) == (PeerSession {
                machine_id,
                name: final(self).name,
                remote_screen: screen,
                state: SessionState::Idle,
                ..*old(self)
            }) && final(self).name@ == name),
            r is Err ==> *final(self) == *old(self),
            r matches Err(e) ==> (e matches DaemonError::Protocol(pe) && (pe is VersionMismatch
                || pe is Handshake)),
            r matches Err(DaemonError::Protocol(ProtocolError::VersionMismatch { .. }))
                <==> (reply@ matches ControlMessageV::Welcome { version, .. } && version.major
                != PROTOCOL_MAJOR),
    {
        match reply {
            ControlMessage::Welcome { version, machine_id, name, screen } => {
                match verify_version(*version) {
                    Ok(()) => {
                        self.machine_id = *machine_id;
                        self.name = name.clone();
                        self.remote_screen = *screen;
                        self.state = SessionState::Idle;
                        Ok(())
                    },
                    Err(e) => Err(e),
                }
            },
            _ => Err(
                DaemonError::Protocol(
                    ProtocolError::Handshake("expected Welcome".to_owned()),
                ),
            ),
        }
    }

    /// Responder handshake: consume the peer's Hello and produce the Welcome
    /// to transmit. On a Hello with a matching major version, record the
    /// remote identity and become Idle; anything else is rejected and leaves
    /// the session as it was.
    pub fn handshake_responder(
        &mut self,
        hello: &ControlMessage,
        our_id: MachineId,
        our_name: &String,
        our_screen: &ScreenGeometry,
    ) -> (r: Result<ControlMessage, DaemonError>)
        requires
            old(self).wf(),
        ensures
            final(self).wf(),
            r is Ok <==> (hello@ matches ControlMessageV::Hello { version, .. } && version.major
                == PROTOCOL_MAJOR),
            r matches Ok(welcome) ==> (hello@ matches ControlMessageV::Hello {
                version,
                machine_id,
                name,
                screen,
            } && *final(self) == (PeerSession {
                machine_id,
                name: final(self).name,
                remote_screen: screen,
                state: SessionState::Idle,
                ..*old(self)
            }) && final(self).name@ == name && welcome@ == (ControlMessageV::Welcome {
                version: spec_protocol_version(),
                machine_id: our_id,
                name: our_name@,
                screen: *our_screen,
            })),
            r is Err ==> *final(self) == *old(self),
            r matches Err(e) ==> (e matches DaemonError::Protocol(pe) && (pe is VersionMismatch
                || pe is Handshake)),
            r matches Err(DaemonError::Protocol(ProtocolError::VersionMismatch { .. }))
                <==> (hello@ matches ControlMessageV::Hello { version, .. } && version.major
                != PROTOCOL_MAJOR),
    {
        match hello {
            ControlMessage::Hello { version, machine_id, name, screen } => {
                match verify_version(*version) {
                    Ok(()) => {
                        self.machine_id = *machine_id;
                        self.name = name.clone();
                        self.remote_screen = *screen;
                        self.state = SessionState::Idle;
                        Ok(
                            ControlMessage::Welcome {
                                version: protocol_version(),
                                machine_id: our_id,
                                name: our_name.clone(),
                                screen: *our_screen,
                            },
                        )
                    },
                    Err(e) => Err(e),
                }
            },
            _ => Err(
                DaemonError::Protocol(ProtocolError::Handshake("expected Hello".to_owned())),
            ),
        }
    }

    /// One `DeviceAnnounce` per local device, in order.
    pub fn announce_devices(&self, devices: &Vec<DeviceInfo>) -> (r: Vec<ControlMessage>)
        ensures
            r@.len() == devices@.len(),
            forall|i: int|
                0 <= i < r@.len() ==> (#[trigger] r@[i])@ == ControlMessageV::DeviceAnnounce(
                    devices@[i]@,
                ),
    {
        let mut r: Vec<ControlMessage> = Vec::new();
        let mut i: usize = 0;
        while i < devices.len()
            invariant
                i <= devices@.len(),
                r@.len() == i,
                forall|j: int|
                    0 <= j < i ==> (#[trigger] r@[j])@ == ControlMessageV::DeviceAnnounce(
                        devices@[j]@,
                    ),
            decreases devices@.len() - i,
        {
            r.push(ControlMessage::DeviceAnnounce(devices[i].duplicate()));
            i = i + 1;
        }
        r
    }

    /// Begin controlling the remote: permitted only from Idle. The caller
    /// must open the outbound input stream before transmitting the returned
    /// `Enter`, so `input_open` is latched here.
    pub fn send_enter(&mut self, edge: ScreenEdge, position: u32) -> (r: Result<
        ControlMessage,
        DaemonError,
    >)
        requires
            old(self).wf(),
        ensures
            final(self).wf(),
            r is Ok <==> old(self).state is Idle,
            r matches Ok(m) ==> *final(self) == (PeerSession {
                state: SessionState::Controlling,
                input_open: true,
                ..*old(self)
            }) && m@ == (ControlMessageV::Enter { edge, position }),
            r is Err ==> *final(self) == *old(self),
            r matches Err(e) ==> (e matches DaemonError::Protocol(pe) && pe is Handshake),
    {
        if !self.state.can_enter_controlling() {
            let reason = "cannot Enter from state ".to_owned().concat(self.state.name());
            return Err(DaemonError::Protocol(ProtocolError::Handshake(reason)));
        }
        self.input_open = true;
        self.state = SessionState::Controlling;
        Ok(ControlMessage::Enter { edge, position })
    }

    /// React to an incoming Enter: permitted only from Idle. Returns the
    /// `EnterAck` to transmit; the inbound input stream is accepted by the
    /// caller asynchronously.
    pub fn handle_enter(&mut self) -> (r: Result<ControlMessage, DaemonError>)
        requires
            old(self).wf(),
        ensures
            final(self).wf(),
            r is Ok <==> old(self).state is Idle,
            r matches Ok(m) ==> *final(self) == (PeerSession {
                state: SessionState::Controlled,
                ..*old(self)
            }) && m@ == ControlMessageV::EnterAck,
            r is Err ==> *final(self) == *old(self),
            r matches Err(e) ==> (e matches DaemonError::Protocol(pe) && pe is Handshake),
    {
        if !self.state.can_enter_controlled() {
            let reason = "cannot be controlled from state ".to_owned().concat(self.state.name());
            return Err(DaemonError::Protocol(ProtocolError::Handshake(reason)));
        }
        self.state = SessionState::Controlled;
        Ok(ControlMessage::EnterAck)
    }

    /// Latch the Controlling state; called when the `EnterAck` arrives.
    pub fn set_controlling(&mut self)
        requires
            old(self).wf(),
        ensures
            final(self).wf(),
            *final(self) == (PeerSession { state: SessionState::Controlling, ..*old(self) }),
    {
        self.state = SessionState::Controlling;
    }

    /// Stop controlling the remote: return to Idle, close the outbound input
    /// stream, and produce the `Leave` to transmit.
    pub fn leave(&mut self, edge: ScreenEdge, position: u32) -> (r: ControlMessage)
        requires
            old(self).wf(),
        ensures
            final(self).wf(),
            *final(self) == (PeerSession {
                state: SessionState::Idle,
                input_open: false,
                ..*old(self)
            }),
            r@ == (ControlMessageV::Leave { edge, position }),
    {
        self.input_open = false;
        self.state = SessionState::Idle;
        ControlMessage::Leave { edge, position }
    }

    /// React to an incoming Leave from the remote peer: return to Idle.
    pub fn handle_leave(&mut self)
        requires
            old(self).wf(),
        ensures
            final(self).wf(),
            *final(self) == (PeerSession { state: SessionState::Idle, ..*old(self) }),
    {
        self.state = SessionState::Idle;
    }

    /// The input message to transmit, if the outbound input stream is open.
    /// A send without an open stream is a benign race with release and is
    /// silently dropped.
    pub fn send_input(&self, msg: InputMessage) -> (r: Option<InputMessage>)
        ensures
            r is Some <==> self.input_open,
            r matches Some(m) ==> m == msg,
    {
        if self.input_open {
            Some(msg)
        } else {
            None
        }
    }

    /// Record a virtual device created for one of the peer's announced
    /// devices.
    pub fn record_device(
        &mut self,
        info: DeviceInfo,
        virtual_id: crate::device::VirtualDeviceId,
    )
        requires
            old(self).wf(),
        ensures
            final(self).wf(),
            final(self).machine_id == old(self).machine_id,
            final(self).name == old(self).name,
            final(self).remote_screen == old(self).remote_screen,
            final(self).state == old(self).state,
            final(self).input_open == old(self).input_open,
            final(self).device_map@ == old(self).device_map@.insert(info.id, virtual_id),
            final(self).remote_devices@ == old(self).remote_devices@.push(info),
    {
        self.device_map.insert(info.id, virtual_id);
        self.remote_devices.push(info);
    }

    /// Remove the mapping for a device the peer withdrew, returning the
    /// virtual device that mirrored it.
    pub fn remove_device(&mut self, device_id: crate::device::DeviceId) -> (r: Option<
        crate::device::VirtualDeviceId,
    >)
        requires
            old(self).wf(),
        ensures
            final(self).wf(),
            final(self).machine_id == old(self).machine_id,
            final(self).name == old(self).name,
            final(self).remote_screen == old(self).remote_screen,
            final(self).state == old(self).state,
            final(self).input_open == old(self).input_open,
            final(self).remote_devices == old(self).remote_devices,
            final(self).device_map@ == old(self).device_map@.remove(device_id),
            r matches Some(v) ==> old(self).device_map@.contains_key(device_id) && old(
                self,
            ).device_map@[device_id] == v,
            r is None ==> !old(self).device_map@.contains_key(device_id),
    {
        self.device_map.remove(device_id)
    }

    /// Disconnect gracefully: enter the terminal state and produce the `Bye`
    /// to transmit before the connection closes.
    pub fn disconnect(&mut self) -> (r: ControlMessage)
        requires
            old(self).wf(),
        ensures
            final(self).wf(),
            *final(self) == (PeerSession { state: SessionState::Disconnecting, ..*old(self) }),
            r@ == ControlMessageV::Bye,
    {
        self.state = SessionState::Disconnecting;
        ControlMessage::Bye
    }
}

} // verus!
