//! In-memory state of a small survey service: the participant records keyed by
//! their secret, the switch that publishes the answers, and the response
//! headers the service adds. Every operation is a plain function on owned
//! state; a server keeps that state behind a lock and calls in.

pub mod config;
pub mod cors;
pub mod history;
pub mod record;
pub mod store;
