//! What each request does.
pub mod cancel;
pub mod complete;
pub mod finalize;
pub mod health;
pub mod init;
pub mod laws;
pub mod part;
pub mod plan;
pub mod status;
