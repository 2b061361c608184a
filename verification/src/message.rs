//! Protocol message types.
//!
//! Messages are exchanged over QUIC streams between peers. Each exec type has
//! a view into a spec-level model (sequences in place of vectors and
//! strings), which the wire codec's contracts are stated over.

use vstd::prelude::*;
use vstd::slice::slice_to_vec;
use vstd::string::StringExecFns;
use vstd::string::StringSliceAdditionalSpecFns;
use vstd::utf8::valid_utf8;

use crate::device::DeviceId;
use crate::device::DeviceInfo;
use crate::errors::DaemonError;
use crate::errors::ProtocolError;
use crate::event::InputEvent;
use crate::machine::MachineId;
use crate::screen::ScreenEdge;
use crate::screen::ScreenGeometry;

verus! {

/// Major part of the current protocol version.
pub const PROTOCOL_MAJOR: u16 = 0;

/// Minor part of the current protocol version.
pub const PROTOCOL_MINOR: u16 = 1;

/// Protocol version for compatibility negotiation.
#[derive(Debug, Clone, Copy, PartialEq, Eq, Structural)]
pub struct ProtocolVersion {
    pub major: u16,
    pub minor: u16,
}

/// The version this library speaks.
pub open spec fn spec_protocol_version() -> ProtocolVersion {
    ProtocolVersion { major: PROTOCOL_MAJOR, minor: PROTOCOL_MINOR }
}

/// The version this library speaks.
pub fn protocol_version() -> (r: ProtocolVersion)
    ensures
        r == spec_protocol_version(),
{
    ProtocolVersion { major: PROTOCOL_MAJOR, minor: PROTOCOL_MINOR }
}

/// The decimal digit character for `d`.
pub open spec fn spec_dec_digit(d: int) -> char {
    if d == 0 {
        '0'
    } else if d == 1 {
        '1'
    } else if d == 2 {
        '2'
    } else if d == 3 {
        '3'
    } else if d == 4 {
        '4'
    } else if d == 5 {
        '5'
    } else if d == 6 {
        '6'
    } else if d == 7 {
        '7'
    } else if d == 8 {
        '8'
    } else {
        '9'
    }
}

/// The decimal rendering of a non-negative integer, no leading zeros.
pub open spec fn spec_dec(n: int) -> Seq<char>
    decreases n,
{
    if n < 10 {
        seq![spec_dec_digit(n)]
    } else {
        spec_dec(n / 10).push(spec_dec_digit(n % 10))
    }
}

/// The rendering `major.minor` of a protocol version.
pub open spec fn spec_version_string(v: ProtocolVersion) -> Seq<char> {
    spec_dec(v.major as int) + seq!['.'] + spec_dec(v.minor as int)
}

/// A decimal digit as a one-character string.
fn dec_digit_str(d: u16) -> (r: &'static str)
    requires
        d < 10,
    ensures
        r@ == seq![spec_dec_digit(d as int)],
{
    let r: &'static str = match d {
        0 => "0",
        1 => "1",
        2 => "2",
        3 => "3",
        4 => "4",
        5 => "5",
        6 => "6",
        7 => "7",
        8 => "8",
        _ => "9",
    };
    proof {
        reveal_strlit("0");
        reveal_strlit("1");
        reveal_strlit("2");
        reveal_strlit("3");
        reveal_strlit("4");
        reveal_strlit("5");
        reveal_strlit("6");
        reveal_strlit("7");
        reveal_strlit("8");
        reveal_strlit("9");
        assert(r@ =~= seq![spec_dec_digit(d as int)]);
    }
    r
}

/// The decimal rendering of `n`.
fn dec_string(n: u16) -> (r: String)
    ensures
        r@ == spec_dec(n as int),
    decreases n,
{
    if n < 10 {
        dec_digit_str(n).to_owned()
    } else {
        let head = dec_string(n / 10);
        let r = head.concat(dec_digit_str(n % 10));
        proof {
            assert(r@ =~= spec_dec(n as int));
        }
        r
    }
}

impl ProtocolVersion {
    /// Render as `major.minor`.
    pub fn to_display_string(&self) -> (r: String)
        ensures
            r@ == spec_version_string(*self),
    {
        let ma = dec_string(self.major);
        let mi = dec_string(self.minor);
        let r = ma.concat(".").concat(mi.as_str());
        proof {
            reveal_strlit(".");
            assert(r@ =~= spec_version_string(*self));
        }
        r
    }
}

/// Check a remote version against ours: only the major part must agree.
pub fn verify_version(remote: ProtocolVersion) -> (r: Result<(), DaemonError>)
    ensures
        r is Ok <==> remote.major == PROTOCOL_MAJOR,
        r matches Err(e) ==> e matches DaemonError::Protocol(pe) && pe
            matches ProtocolError::VersionMismatch { remote: rs, local: ls } && rs@
            == spec_version_string(remote) && ls@ == spec_version_string(spec_protocol_version()),
{
    if remote.major != PROTOCOL_MAJOR {
        Err(
            DaemonError::Protocol(
                ProtocolError::VersionMismatch {
                    remote: remote.to_display_string(),
                    local: protocol_version().to_display_string(),
                },
            ),
        )
    } else {
        Ok(())
    }
}

/// Top-level message envelope.
#[derive(Debug, Clone, PartialEq, Eq)]
pub enum Message {
    Control(ControlMessage),
    Input(InputMessage),
    Clipboard(ClipboardMessage),
}

/// Control-plane messages (bidirectional control stream).
#[derive(Debug, Clone, PartialEq, Eq)]
pub enum ControlMessage {
    /// Initial handshake from the connecting peer.
    Hello { version: ProtocolVersion, machine_id: MachineId, name: String, screen: ScreenGeometry },
    /// Response to Hello.
    Welcome {
        version: ProtocolVersion,
        machine_id: MachineId,
        name: String,
        screen: ScreenGeometry,
    },
    /// Announce a new input device.
    DeviceAnnounce(DeviceInfo),
    /// An input device was removed.
    DeviceGone { device_id: DeviceId },
    /// Screen geometry changed.
    ScreenUpdate(ScreenGeometry),
    /// Cursor is crossing to the remote machine. `edge` is the edge the
    /// cursor leaves from; `position` is the pixel offset along that edge.
    Enter { edge: ScreenEdge, position: u32 },
    /// Acknowledge an Enter; the remote is ready to receive input.
    EnterAck,
    /// Cursor is returning to the local machine.
    Leave { edge: ScreenEdge, position: u32 },
    /// Keepalive ping with a sequence number for RTT measurement.
    Ping { seq: u64 },
    /// Keepalive pong, echoing the ping's sequence number.
    Pong { seq: u64 },
    /// Graceful disconnect.
    Bye,
}

/// Input data messages (unidirectional, controller to controlled).
#[derive(Debug, Clone, PartialEq, Eq)]
pub struct InputMessage {
    /// The source device on the controlling machine.
    pub device_id: DeviceId,
    pub timestamp_us: u64,
    /// Batch of events; within-batch order is preserved and a batch never
    /// crosses device boundaries.
    pub events: Vec<InputEvent>,
}

/// Clipboard synchronisation messages.
#[derive(Debug, Clone, PartialEq, Eq)]
pub enum ClipboardMessage {
    /// Advertise that the clipboard has content available.
    Offer { formats: Vec<ClipboardFormat>, size_hint: u64 },
    /// Request clipboard content in a specific format.
    Request { format: ClipboardFormat },
    /// Clipboard content payload.
    Data(ClipboardContent),
}

/// Format of clipboard content.
#[derive(Debug, Clone, Copy, PartialEq, Eq, Hash, Structural)]
pub enum ClipboardFormat {
    /// Plain UTF-8 text.
    PlainText,
    /// HTML content.
    Html,
    /// PNG image data.
    Png,
}

/// Clipboard content with format metadata.
#[derive(Debug, Clone, PartialEq, Eq)]
pub struct ClipboardContent {
    pub format: ClipboardFormat,
    pub data: Vec<u8>,
}

/// Relies on std::str::from_utf8: succeeds exactly on valid UTF-8 input and
/// yields the decoded characters.
#[verifier::external_body]
pub fn utf8_from_bytes(b: &[u8]) -> (r: Option<&str>)
    ensures
        r is Some <==> valid_utf8(b@),
        r matches Some(s) ==> s.spec_bytes() == b@,
{
    core::str::from_utf8(b).ok()
}

impl ClipboardContent {
    /// Create text clipboard content.
    pub fn text(s: &str) -> (r: Self)
        ensures
            r.format is PlainText,
            r.data@ == s.spec_bytes(),
    {
        Self { format: ClipboardFormat::PlainText, data: slice_to_vec(s.as_bytes()) }
    }

    /// Try to interpret the data as UTF-8 text.
    pub fn as_text(&self) -> (r: Option<&str>)
        ensures
            r is Some <==> (self.format is PlainText && valid_utf8(self.data@)),
            r matches Some(s) ==> s.spec_bytes() == self.data@,
    {
        if self.format == ClipboardFormat::PlainText {
            utf8_from_bytes(self.data.as_slice())
        } else {
            None
        }
    }

    /// Size of the content in bytes.
    pub fn size(&self) -> (r: usize)
        ensures
            r == self.data@.len(),
    {
        self.data.len()
    }
}

// ---------------------------------------------------------------------------
// Spec-level models
// ---------------------------------------------------------------------------
/// Spec model of a `DeviceInfo`.
pub struct DeviceInfoV {
    pub id: DeviceId,
    pub name: Seq<char>,
    pub capabilities: Seq<crate::device::DeviceCapability>,
}

impl View for DeviceInfo {
    type V = DeviceInfoV;

    open spec fn view(&self) -> DeviceInfoV {
        DeviceInfoV { id: self.id, name: self.name@, capabilities: self.capabilities@ }
    }
}

/// Spec model of an `InputMessage`.
pub struct InputMessageV {
    pub device_id: DeviceId,
    pub timestamp_us: u64,
    pub events: Seq<InputEvent>,
}

impl View for InputMessage {
    type V = InputMessageV;

    open spec fn view(&self) -> InputMessageV {
        InputMessageV {
            device_id: self.device_id,
            timestamp_us: self.timestamp_us,
            events: self.events@,
        }
    }
}

/// Spec model of a `ControlMessage`.
pub enum ControlMessageV {
    Hello {
        version: ProtocolVersion,
        machine_id: MachineId,
        name: Seq<char>,
        screen: ScreenGeometry,
    },
    Welcome {
        version: ProtocolVersion,
        machine_id: MachineId,
        name: Seq<char>,
        screen: ScreenGeometry,
    },
    DeviceAnnounce(DeviceInfoV),
    DeviceGone { device_id: DeviceId },
    ScreenUpdate(ScreenGeometry),
    Enter { edge: ScreenEdge, position: u32 },
    EnterAck,
    Leave { edge: ScreenEdge, position: u32 },
    Ping { seq: u64 },
    Pong { seq: u64 },
    Bye,
}

impl View for ControlMessage {
    type V = ControlMessageV;

    open spec fn view(&self) -> ControlMessageV {
        match *self {
            ControlMessage::Hello { version, machine_id, ref name, screen } => {
                ControlMessageV::Hello { version, machine_id, name: name@, screen }
            },
            ControlMessage::Welcome { version, machine_id, ref name, screen } => {
                ControlMessageV::Welcome { version, machine_id, name: name@, screen }
            },
            ControlMessage::DeviceAnnounce(ref info) => ControlMessageV::DeviceAnnounce(info@),
            ControlMessage::DeviceGone { device_id } => ControlMessageV::DeviceGone { device_id },
            ControlMessage::ScreenUpdate(screen) => ControlMessageV::ScreenUpdate(screen),
            ControlMessage::Enter { edge, position } => ControlMessageV::Enter { edge, position },
            ControlMessage::EnterAck => ControlMessageV::EnterAck,
            ControlMessage::Leave { edge, position } => ControlMessageV::Leave { edge, position },
            ControlMessage::Ping { seq } => ControlMessageV::Ping { seq },
            ControlMessage::Pong { seq } => ControlMessageV::Pong { seq },
            ControlMessage::Bye => ControlMessageV::Bye,
        }
    }
}

/// Spec model of a `ClipboardContent`.
pub struct ClipboardContentV {
    pub format: ClipboardFormat,
    pub data: Seq<u8>,
}

impl View for ClipboardContent {
    type V = ClipboardContentV;

    open spec fn view(&self) -> ClipboardContentV {
        ClipboardContentV { format: self.format, data: self.data@ }
    }
}

/// Spec model of a `ClipboardMessage`.
pub enum ClipboardMessageV {
    Offer { formats: Seq<ClipboardFormat>, size_hint: u64 },
    Request { format: ClipboardFormat },
    Data(ClipboardContentV),
}

impl View for ClipboardMessage {
    type V = ClipboardMessageV;

    open spec fn view(&self) -> ClipboardMessageV {
        match *self {
            ClipboardMessage::Offer { ref formats, size_hint } => {
                ClipboardMessageV::Offer { formats: formats@, size_hint }
            },
            ClipboardMessage::Request { format } => ClipboardMessageV::Request { format },
            ClipboardMessage::Data(ref content) => ClipboardMessageV::Data(content@),
        }
    }
}

/// Spec model of a `Message`.
pub enum MessageV {
    Control(ControlMessageV),
    Input(InputMessageV),
    Clipboard(ClipboardMessageV),
}

impl View for Message {
    type V = MessageV;

    open spec fn view(&self) -> MessageV {
        match *self {
            Message::Control(ref m) => MessageV::Control(m@),
            Message::Input(ref m) => MessageV::Input(m@),
            Message::Clipboard(ref m) => MessageV::Clipboard(m@),
        }
    }
}

} // verus!
