//! Verified core of a multi-tenant gateway for Ogmios ports: credential
//! derivation, hostname codec, port registry, tier store, rate-limiter cache
//! and the proxy's per-request and per-frame decisions.

pub mod billing;
pub mod credential;
pub mod error;
pub mod hostname;
pub mod limiter;
pub mod operator;
pub mod pipe;
pub mod port;
pub mod proxy;
pub mod registry;
pub mod strmap;
pub mod text;
pub mod tiers;
