//! A verified fan-out core for a streaming service: one publisher feeding
//! many subscribers through bounded per-subscriber queues, with an explicit
//! overflow policy and a verified per-session lifecycle.
//!
//! The bus drops the oldest buffered event and flags the subscriber when a
//! queue overflows; a session that observes the flag terminates its stream
//! with a distinguishable lag indication. Publishing never waits on any
//! subscriber.

pub mod bus;
pub mod event;
pub mod laws;
pub mod session;
