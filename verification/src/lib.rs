//! Identity resolution and user-record reconciliation.
//!
//! Two decoupled components: a session resolver that derives a stable
//! per-caller identifier from a cookie jar (minting one when absent), and a
//! user store that reconciles such identifiers against a `users` table with
//! idempotent creation, point lookup, and full-record update.

pub mod phonetic_key;
pub mod session;
pub mod store;
