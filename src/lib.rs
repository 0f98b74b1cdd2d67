//! Fan-out of market-data frames to live subscriber sessions.
//!
//! `bus` holds the publish bus: one bounded, lossy delivery queue per
//! subscription handle. `inbound` reads the control messages that a client
//! sends. `session` decides, event by event, what one subscriber connection
//! does, and releases its handle when the connection ends.
pub mod bus;
pub mod inbound;
pub mod session;

pub use bus::{Bus, Subscriber};
pub use inbound::{classify_inbound, intent_of_action, Directive};
pub use session::{Session, SessionEvent};
