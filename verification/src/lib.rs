//! Verified core of a virtual-KVM daemon: shared wire types, a deterministic
//! framed codec, the per-peer session state machine, and the event-driven
//! routing engine that moves cursor focus across a screen adjacency graph.
//!
//! All I/O (QUIC transport, TLS, config files, platform input backends) lives
//! outside this crate; the functions here are pure decision and data logic,
//! each with a contract.

pub mod codec;
pub mod config;
pub mod daemon;
pub mod device;
pub mod devmap;
pub mod errors;
pub mod event;
pub mod machine;
pub mod message;
pub mod mock;
pub mod screen;
pub mod session;
pub mod state;

pub use codec::decode_message;
pub use codec::encode_message;
pub use codec::parse_frame_header;
pub use codec::MAX_MESSAGE_SIZE;
pub use config::Config;
pub use config::DaemonConfig;
pub use config::IdentityConfig;
pub use config::InputConfig;
pub use config::ScreenAdjacency;
pub use config::ScreenConfig;
pub use daemon::Daemon;
pub use daemon::DaemonAction;
pub use daemon::DaemonEvent;
pub use daemon::DaemonStatus;
pub use device::DeviceCapability;
pub use device::DeviceId;
pub use device::DeviceInfo;
pub use device::VirtualDeviceId;
pub use errors::CertgenError;
pub use errors::ClipboardError;
pub use errors::DaemonError;
pub use errors::DiscoveryError;
pub use errors::InputError;
pub use errors::ProtocolError;
pub use event::ButtonState;
pub use event::CapturedEvent;
pub use event::InputEvent;
pub use event::KeyCode;
pub use event::MouseButton;
pub use event::ScrollAxis;
pub use event::ScrollDirection;
pub use machine::GeneratedCert;
pub use machine::MachineId;
pub use message::ClipboardContent;
pub use message::ClipboardFormat;
pub use message::ClipboardMessage;
pub use message::ControlMessage;
pub use message::InputMessage;
pub use message::Message;
pub use message::ProtocolVersion;
pub use mock::InjectedEvent;
pub use mock::MockEmulation;
pub use screen::Barrier;
pub use screen::BarrierId;
pub use screen::Position;
pub use screen::ScreenEdge;
pub use screen::ScreenGeometry;
pub use session::PeerSession;
pub use state::SessionState;
