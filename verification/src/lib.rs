//! Decision core of an ICMP echo client.
//!
//! The engine decides when a probe is due, matches replies to the probes
//! that are still in flight, notices the ones that were never answered and
//! reports round-trip times. It performs no I/O: a driver feeds it datagrams
//! and clock readings and carries out what it answers.

pub mod addr;
pub mod context;
pub mod laws;
pub mod message;
pub mod model;
pub mod ping;
pub mod time;
pub mod wire;

pub use crate::addr::Ipv4Addr;
pub use crate::context::{BasicContext, Context};
pub use crate::message::{Error, Event, Input, Output};
pub use crate::ping::Ping;
pub use crate::time::{Duration, Instant};
