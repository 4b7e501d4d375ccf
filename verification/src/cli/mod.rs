//! The commands besides the daemon itself.

pub mod pair;
