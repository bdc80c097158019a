//! Olm and Megolm sessions built on vodozemac, with the JSON shapes that
//! JavaScript callers read.
//!
//! - `olm_sessions`: `Account`, `Session`, `InboundResult`.
//! - `megolm_sessions`: `GroupSession`, `InboundGroupSession`.
//! - `json`: the JSON texts handed to callers.
//! - `text`: string order and UTF-8 decoding.
//! - `olm_bindings`, `megolm_bindings`: the calls into vodozemac and
//!   serde_json, with what each is taken to do.

pub mod error;
pub mod json;
pub mod megolm_bindings;
pub mod megolm_sessions;
pub mod olm_bindings;
pub mod olm_sessions;
pub mod text;

pub use error::VodozemacError;
pub use megolm_sessions::{GroupSession, InboundGroupSession};
pub use olm_sessions::{Account, InboundResult, Session};
