pub mod encryption;
pub mod identity;
