//! Device pairing with a music-streaming provider's OAuth flow: pairing
//! tokens, the per-user credential lifecycle and the store that holds them.

mod clock;
pub mod pairing;
pub mod scopes;
pub mod service;
pub mod store;
pub mod user;
