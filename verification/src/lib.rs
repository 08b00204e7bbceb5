//! Verified core of a minimal line-oriented chat server.
//!
//! Clients connect, claim a nickname, join the single shared room, and
//! exchange broadcast text lines.  This crate holds the shared session
//! table, the registration state machine, the fan-out broadcaster and the
//! per-line command dispatcher; the transport (sockets, threads, flushing)
//! lives outside and hands the core one decoded line at a time.

pub mod broadcast;
pub mod command;
pub mod dispatch;
pub mod laws;
pub mod registry;
pub mod session;

pub use broadcast::{Delivery, DeliveryV};
pub use command::{Command, CommandV};
pub use registry::{Registry, RegistryError, RegistryV};
pub use session::{Session, SessionV, Stage};
