//! What the request handlers decide.

pub mod thread;
