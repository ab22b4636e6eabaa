//! Core logic of a local tunnelling reverse proxy: caller classification,
//! the response cache, sharing tokens, the onion control dialogue and the
//! per-request bookkeeping, each stated and proved over plain values.

pub mod text;
pub mod count;
pub mod net;
pub mod base64;
pub mod time;
pub mod context;
pub mod cache;
pub mod cache_model;
pub mod cache_control;
pub mod mode;
pub mod dns;
pub mod http;
pub mod tunnel;
pub mod p2p;
pub mod stun;
pub mod tor;
pub mod cert;
pub mod config;
pub mod units;
pub mod errors;
