//! Decides which merged git branches to remove, and in which order.
pub mod listing;
pub mod protocol;
pub mod session;
pub mod target;
pub mod text;
