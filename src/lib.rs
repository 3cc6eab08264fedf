//! A time-bounded whitelist of client addresses for a forward-authentication
//! gateway: addresses that presented identity headers are remembered until a
//! daily cutoff, and their captured headers are replayed on later checks.

pub mod addr;
pub mod headers;
pub mod time;
pub mod whitelist;
pub mod handler;
pub mod settings;
pub mod lemmas;
pub mod shared;
