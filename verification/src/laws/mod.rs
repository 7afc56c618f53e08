//! What holds of the service as a whole, said in terms of what goes in and what
//! comes out.
pub mod access;
pub mod announcing;
pub mod answers;
pub mod assembling;
pub mod cancellation;
pub mod completion;
pub mod components;
pub mod counting;
pub mod directories;
pub mod dividing;
pub mod finalizing;
pub mod naming;
pub mod numbers;
pub mod records;
pub mod settings;
pub mod sharing;
pub mod status;
pub mod sweeping;
pub mod syncing;
pub mod tokens;
pub mod uploading;
