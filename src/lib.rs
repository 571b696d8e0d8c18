//! A line-oriented group-chat relay: name validation, the shared participant
//! registry and the per-connection session state machine, together with the
//! request logic of a few small companion services.

pub mod text;
pub mod registry;
pub mod session;
pub mod asset;
pub mod kv;
pub mod relay;
pub mod prime;
