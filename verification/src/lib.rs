//! Admission control for a contact-form relay.
//!
//! The crate decides, per client, whether a request may proceed under a
//! fixed-window quota, and prepares the relayed message from a submitted form.
//! Network and disk access stay with the caller: every function here maps
//! plain values to plain values.

pub mod config;
pub mod form;
pub mod laws;
pub mod limiter;
pub mod mailing;
pub mod quota;
pub mod store;
