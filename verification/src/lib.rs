//! A real-time chat relay core: a bounded fan-out broadcaster with a live
//! connection count, the per-connection state machine that bridges one client
//! to it, and the presence notices that announce joins and departures.

pub mod broadcaster;
pub mod chatline;
pub mod connection;
pub mod model;
pub mod presence;
pub mod theorems;
