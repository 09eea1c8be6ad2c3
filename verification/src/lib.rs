//! Core of a newsletter publishing service: an idempotency key store that
//! makes the publish request exactly-once, an issue store, a durable
//! delivery queue fanned out per recipient, and the worker protocol that
//! drains it with bounded retries.
//!
//! The durable state is modelled by [`storage::Storage`]; every operation
//! on it is specified as a transition on its abstract view, so the
//! exactly-once and at-least-once delivery guarantees are stated and
//! proved at that level.

pub mod storage;
pub mod idempotency;
pub mod utils;
pub mod publish;
pub mod delivery;
pub mod domain;
pub mod subscriptions;
pub mod subscriptions_confirm;
pub mod newsletter;
pub mod configuration;
pub mod authentication;
pub mod password_change;
