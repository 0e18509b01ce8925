//! Protection against replayed messages.
pub mod replay;
