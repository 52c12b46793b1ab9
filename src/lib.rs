//! Runtime for plugins hosted out of process by a reverse proxy.
//!
//! The host drives this process over a local socket with a framed binary
//! protocol. The library holds the parts of that runtime that decide things:
//! the frame layout, the protocol-buffer messages of the plugin socket, the
//! schema renderer for plugin configurations, the phase and outcome rules of
//! plugins, and the server's registry, instance table and command dispatcher.
//! Sockets, tasks and the plugins' own hooks live with the caller.

pub mod body;
pub mod frame;
pub mod plugin;
pub mod protocol;
pub mod schema;
pub mod server;
pub mod wire;

pub use body::Body;
pub use plugin::{ok_or_internal_error, ExitResponse, KongError, Phase, PluginInfo, PluginResult};
pub use server::{IdAllocator, InstanceTable, Registry, Step};
