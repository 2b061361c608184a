//! Error types of every subsystem.
//!
//! Each variant carries plain data; rendering to a display string is a
//! library method so callers need no formatting machinery.

use vstd::prelude::*;
use vstd::string::StringExecFns;

use crate::screen::BarrierId;

verus! {

/// Protocol and transport errors.
#[derive(Debug, Clone, PartialEq, Eq)]
pub enum ProtocolError {
    /// The connection failed or was lost.
    Connection(String),
    /// The handshake was broken off, or a message arrived in a state that
    /// forbids it.
    Handshake(String),
    /// The two ends speak incompatible protocol versions.
    VersionMismatch { remote: String, local: String },
    /// A message could not be encoded for the wire.
    Serialization(String),
    /// A frame could not be decoded from the wire.
    Deserialization(String),
    /// The stream ended in the middle of a frame.
    StreamClosed,
    /// TLS setup failed.
    Tls(String),
}

impl ProtocolError {
    /// A short display string for logs and diagnostics.
    pub fn message(&self) -> (r: String)
        ensures
            r@.len() > 0,
    {
        let s: String = match self {
            ProtocolError::Connection(m) => "connection failed: ".to_owned().concat(m.as_str()),
            ProtocolError::Handshake(m) => "handshake failed: ".to_owned().concat(m.as_str()),
            ProtocolError::VersionMismatch { remote, local } => {
                let head = "incompatible protocol version: remote ".to_owned();
                let with_remote = head.concat(remote.as_str());
                let with_sep = with_remote.concat(", local ");
                proof {
                    reveal_strlit(", local ");
                }
                with_sep.concat(local.as_str())
            },
            ProtocolError::Serialization(m) => "serialisation error: ".to_owned().concat(
                m.as_str(),
            ),
            ProtocolError::Deserialization(m) => "deserialisation error: ".to_owned().concat(
                m.as_str(),
            ),
            ProtocolError::StreamClosed => "stream closed unexpectedly".to_owned(),
            ProtocolError::Tls(m) => "TLS error: ".to_owned().concat(m.as_str()),
        };
        proof {
            reveal_strlit("connection failed: ");
            reveal_strlit("handshake failed: ");
            reveal_strlit("incompatible protocol version: remote ");
            reveal_strlit("serialisation error: ");
            reveal_strlit("deserialisation error: ");
            reveal_strlit("stream closed unexpectedly");
            reveal_strlit("TLS error: ");
        }
        s
    }
}

/// Input capture and emulation errors.
#[derive(Debug, Clone, PartialEq, Eq)]
pub enum InputError {
    /// A physical device could not be opened.
    DeviceOpen(String),
    /// A physical device could not be grabbed.
    DeviceGrab(String),
    /// A virtual device could not be created.
    VirtualDeviceCreate(String),
    /// An event could not be injected.
    Inject(String),
    /// No barrier is registered under this id.
    BarrierNotFound(BarrierId),
    /// No backend is available on this platform.
    Unavailable,
}

/// Clipboard subsystem errors.
#[derive(Debug, Clone, PartialEq, Eq)]
pub enum ClipboardError {
    /// The platform refused clipboard access.
    AccessDenied,
    /// The requested format is not on the clipboard.
    FormatUnavailable,
    /// The content exceeds the configured size limit.
    TooLarge { size: usize, max: usize },
    /// No backend is available on this platform.
    Unavailable,
}

/// Peer discovery errors.
#[derive(Debug, Clone, PartialEq, Eq)]
pub enum DiscoveryError {
    /// Advertising the service failed.
    Registration(String),
    /// Browsing for peers failed.
    Browse(String),
    /// No backend is available on this platform.
    Unavailable,
}

/// Certificate generation errors.
#[derive(Debug, Clone, PartialEq, Eq)]
pub enum CertgenError {
    /// Key or certificate generation failed.
    Generation(String),
    /// The certificate material could not be written.
    Io(String),
}

/// Daemon errors.
#[derive(Debug, Clone, PartialEq, Eq)]
pub enum DaemonError {
    /// The configuration is unreadable or invalid.
    Config(String),
    /// A daemon instance is already running.
    AlreadyRunning,
    /// No daemon instance is running.
    NotRunning,
    /// A protocol or transport error.
    Protocol(ProtocolError),
    /// An input backend error.
    Input(InputError),
    /// A clipboard error.
    Clipboard(ClipboardError),
    /// A discovery error.
    Discovery(DiscoveryError),
}

impl DaemonError {
    /// A short display string for logs and diagnostics.
    pub fn message(&self) -> (r: String)
        ensures
            r@.len() > 0,
    {
        let s: String = match self {
            DaemonError::Config(m) => "configuration error: ".to_owned().concat(m.as_str()),
            DaemonError::AlreadyRunning => "already running".to_owned(),
            DaemonError::NotRunning => "not running".to_owned(),
            DaemonError::Protocol(e) => {
                let inner = e.message();
                "protocol error: ".to_owned().concat(inner.as_str())
            },
            DaemonError::Input(_) => "input error".to_owned(),
            DaemonError::Clipboard(_) => "clipboard error".to_owned(),
            DaemonError::Discovery(_) => "discovery error".to_owned(),
        };
        proof {
            reveal_strlit("configuration error: ");
            reveal_strlit("already running");
            reveal_strlit("not running");
            reveal_strlit("protocol error: ");
            reveal_strlit("input error");
            reveal_strlit("clipboard error");
            reveal_strlit("discovery error");
        }
        s
    }
}

} // verus!
