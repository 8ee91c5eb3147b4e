//! Connection-lifecycle core of a WebSocket relay gateway.
//!
//! The gateway keeps one outbound link to an upstream feed and serves many
//! inbound client connections. Everything in this crate is a deterministic
//! state machine over plain values: callers feed in events (a frame arrived,
//! a timer fired, a connect attempt finished) together with the current time
//! in milliseconds, and get back the actions to perform on the sockets and
//! timers they own. Nothing here reads a clock, touches a socket or blocks.
//!
//! - [`frame`]: frames, as a kind and an opaque payload.
//! - [`heartbeat`]: the liveness policy of client connections.
//! - [`connection`]: the supervisor of one client connection.
//! - [`queue`]: the bounded queue of frames waiting for one socket.
//! - [`registry`]: the registered connections and the fan-out to them.
//! - [`backoff`]: the retry policy of the upstream link.
//! - [`upstream`]: the upstream link and its write queue.
//! - [`gateway`]: the registry and the link under one owner.
//!
//! Each stateful type has a mathematical model (`ConnectionModel`,
//! `RegistryModel`, `LinkModel`, `GatewayModel`) whose transitions define
//! what the executable methods do; the laws of the gateway are proved about
//! these models.

pub mod frame;
pub mod heartbeat;
pub mod connection;
pub mod queue;
pub mod registry;
pub mod backoff;
pub mod upstream;
pub mod gateway;
