//! The verified core of a sandboxed query service: the bounded results
//! buffer, the data source model, and the rules that the host applies to
//! what an untrusted script hands it.

pub mod authenticator;
pub mod database;
pub mod decimal;
pub mod driver;
pub mod error;
pub mod hex;
pub mod host;
pub mod json;
pub mod lifecycle;
pub mod lines;
pub mod mac;
pub mod random;
pub mod ringbuffer;
pub mod runtime;
pub mod table;
pub mod text;
