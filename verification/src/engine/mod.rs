//! The rings and messages of the matrix engine.
pub mod messages;
pub mod mixer;
pub mod ring;
