pub mod header;
pub mod miner;
pub mod target;
pub mod worker_pool;
