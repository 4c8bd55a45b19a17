pub mod cli;
pub mod config;
pub mod decimal;
pub mod hashrate;
pub mod miner;
pub mod mining;
pub mod network;
pub mod rpc;
pub mod worker_pool;
