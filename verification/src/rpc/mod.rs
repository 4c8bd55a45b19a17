pub mod client;
pub mod ipc;
pub mod stream;
pub mod types;
