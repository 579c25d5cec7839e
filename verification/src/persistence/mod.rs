//! The settings file: what it holds, how it is read, and how it is replaced.
pub mod document;
pub mod queue;
pub mod store;
