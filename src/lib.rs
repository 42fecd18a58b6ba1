//! Guest-side runtime for an extension module that a proxy host runs in a
//! sandbox and reaches only through numeric entry points.
//!
//! - `codec`: the flat wire form in which header maps cross the boundary.
//! - `context`: factories by role id and handler instances by host-assigned id,
//!   created on first use.
//! - `dispatch`: lifecycle events from the host, routed to their handlers.
//! - `payload`: requests to the host's header maps, and their replies.
//! - `types`: status vocabularies of the host interface.

pub mod codec;
pub mod context;
pub mod dispatch;
pub mod payload;
pub mod types;
