//! Helpers.

pub mod net;
pub mod sync;
