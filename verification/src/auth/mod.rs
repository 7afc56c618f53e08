//! Who may do what.
pub mod api_key;
pub mod jwt;
