//! Daemon configuration model.
//!
//! The runtime layer parses the configuration file and hands these plain
//! values in; defaults mirror what an absent file would give. The default
//! machine name is a fixed fallback: the runtime substitutes the host name
//! where it can read one.

use vstd::prelude::*;
use vstd::string::StringExecFns;

use crate::screen::Position;

verus! {

/// Top-level configuration.
#[derive(Debug, Clone, PartialEq, Eq)]
pub struct Config {
    pub daemon: DaemonConfig,
    pub identity: IdentityConfig,
    pub input: InputConfig,
    pub clipboard: ClipboardConfig,
    pub screens: Vec<ScreenConfig>,
    pub screen_adjacency: Vec<ScreenAdjacency>,
}

/// An adjacency edge between two screens in the full screen graph, used for
/// multi-hop routing when the cursor leaves a remote screen.
#[derive(Debug, Clone, PartialEq, Eq)]
pub struct ScreenAdjacency {
    /// The screen the cursor is leaving.
    pub screen: String,
    /// The neighbouring screen in the given direction.
    pub neighbor: String,
    /// The position of `neighbor` relative to `screen`.
    pub position: Position,
}

/// Daemon network and runtime settings.
#[derive(Debug, Clone, PartialEq, Eq)]
pub struct DaemonConfig {
    pub port: u16,
    pub bind: String,
    pub discovery: bool,
    pub log_level: String,
    pub screen_width: u32,
    pub screen_height: u32,
}

/// Machine identity.
#[derive(Debug, Clone, PartialEq, Eq)]
pub struct IdentityConfig {
    pub name: String,
}

/// Input subsystem settings.
#[derive(Debug, Clone, PartialEq, Eq)]
pub struct InputConfig {
    /// The chord of key names that releases control of a remote.
    pub release_hotkey: Vec<String>,
}

/// Clipboard subsystem settings.
#[derive(Debug, Clone, PartialEq, Eq)]
pub struct ClipboardConfig {
    pub enabled: bool,
    pub max_size: usize,
}

/// A remote screen definition.
#[derive(Debug, Clone, PartialEq, Eq)]
pub struct ScreenConfig {
    pub name: String,
    /// Present on the side that dials; absent on the listening side.
    pub address: Option<String>,
    pub position: Position,
    pub fingerprint: Option<String>,
}

/// Default daemon port.
pub fn default_port() -> (r: u16)
    ensures
        r == 24800,
{
    24800
}

/// Default bind address.
pub fn default_bind() -> (r: String)
    ensures
        r@ == "0.0.0.0"@,
{
    "0.0.0.0".to_owned()
}

/// Default for options that are on unless disabled.
pub fn default_true() -> (r: bool)
    ensures
        r,
{
    true
}

/// Default log level.
pub fn default_log_level() -> (r: String)
    ensures
        r@ == "info"@,
{
    "info".to_owned()
}

/// Default release hot-key chord.
pub fn default_release_hotkey() -> (r: Vec<String>)
    ensures
        r@.len() == 3,
        r@[0]@ == "LeftCtrl"@,
        r@[1]@ == "LeftShift"@,
        r@[2]@ == "Escape"@,
{
    let mut r: Vec<String> = Vec::new();
    r.push("LeftCtrl".to_owned());
    r.push("LeftShift".to_owned());
    r.push("Escape".to_owned());
    r
}

/// Default clipboard size limit: 10 MiB.
pub fn default_max_clipboard_size() -> (r: usize)
    ensures
        r == 10485760,
{
    10 * 1024 * 1024
}

/// Default screen width.
pub fn default_screen_width() -> (r: u32)
    ensures
        r == 1920,
{
    1920
}

/// Default screen height.
pub fn default_screen_height() -> (r: u32)
    ensures
        r == 1080,
{
    1080
}

impl Default for DaemonConfig {
    fn default() -> (r: Self)
        ensures
            r.port == 24800,
            r.bind@ == "0.0.0.0"@,
            r.discovery,
            r.log_level@ == "info"@,
            r.screen_width == 1920,
            r.screen_height == 1080,
    {
        DaemonConfig {
            port: default_port(),
            bind: default_bind(),
            discovery: default_true(),
            log_level: default_log_level(),
            screen_width: default_screen_width(),
            screen_height: default_screen_height(),
        }
    }
}

impl Default for IdentityConfig {
    fn default() -> (r: Self)
        ensures
            r.name@ == "cross-control"@,
    {
        IdentityConfig { name: "cross-control".to_owned() }
    }
}

impl Default for InputConfig {
    fn default() -> (r: Self)
        ensures
            r.release_hotkey@.len() == 3,
            r.release_hotkey@[0]@ == "LeftCtrl"@,
            r.release_hotkey@[1]@ == "LeftShift"@,
            r.release_hotkey@[2]@ == "Escape"@,
    {
        InputConfig { release_hotkey: default_release_hotkey() }
    }
}

impl Default for ClipboardConfig {
    fn default() -> (r: Self)
        ensures
            r.enabled,
            r.max_size == 10485760,
    {
        ClipboardConfig { enabled: default_true(), max_size: default_max_clipboard_size() }
    }
}

impl Default for Config {
    fn default() -> (r: Self)
        ensures
            r.daemon.port == 24800,
            r.daemon.screen_width == 1920,
            r.daemon.screen_height == 1080,
            r.identity.name@ == "cross-control"@,
            r.input.release_hotkey@.len() == 3,
            r.screens@.len() == 0,
            r.screen_adjacency@.len() == 0,
    {
        Config {
            daemon: DaemonConfig::default(),
            identity: IdentityConfig::default(),
            input: InputConfig::default(),
            clipboard: ClipboardConfig::default(),
            screens: Vec::new(),
            screen_adjacency: Vec::new(),
        }
    }
}

} // verus!
