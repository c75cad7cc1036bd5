//! Named, encrypted environments of key/value secrets: the codec for
//! `KEY=VALUE` text, key filters, the session cache carried in an ambient
//! variable, the argument lists of the `age` tool, and the decisions that
//! each command makes between them.
pub mod cipher;
pub mod codec;
pub mod error;
pub mod filter;
pub mod session;
pub mod store;
