//! What is written to the log.
//!
//! Events of the server and of the Tor client are cleaned, shortened and put into
//! plain words before they are written.

pub mod durations;
pub mod events;
pub mod limiter;
pub mod line;
pub mod names;
pub mod scan;
pub mod values;
