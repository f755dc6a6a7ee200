//! The receive-confirmation protocol.

pub mod protocol;
