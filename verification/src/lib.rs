//! A service for uploading large files in parts.
pub mod auth;
pub mod cast;
pub mod clock;
pub mod config;
pub mod db;
pub mod decimal;
pub mod digest;
pub mod error;
pub mod handlers;
pub mod headers;
pub mod ids;
pub mod laws;
pub mod paths;
pub mod services;
pub mod storage;
pub mod text;
