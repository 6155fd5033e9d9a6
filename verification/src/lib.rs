//! Verified rules of an imageboard server.

use vstd::prelude::*;

pub mod digest;
pub mod handlers;
pub mod json;
pub mod launch;
pub mod logging;
pub mod media;
pub mod middleware;
pub mod models;
pub mod numbers;
pub mod paths;
pub mod text;

verus! {

} // verus!
