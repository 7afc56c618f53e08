//! Work that goes on in the background.
pub mod cleanup;
