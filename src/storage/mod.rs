//! Containers for sensitive bytes.
pub mod ephemeral;
