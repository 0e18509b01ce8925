//! State of the terminal chat view.
pub mod terminal;
