//! Session authority core: a revocable token issuer over an allow-list, a
//! rate-limited one-time code store, and a least-recently-used cache of user
//! state that is invalidated on every authorization-relevant write.

pub mod cache;
pub mod codes;
pub mod tokens;
pub mod session;
pub mod accounts;
pub mod flows;
pub mod pages;
