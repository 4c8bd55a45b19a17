use vstd::prelude::*;

verus! {

/// A message sent to the node: a named envelope around a request.
#[derive(Debug)]
pub struct Message<T> {
    pub _type: String,
    pub data: Request<T>,
}

/// A request to the node: a message id, a route and a payload.
#[derive(Debug)]
pub struct Request<T> {
    pub mid: usize,
    pub _type: String,
    pub data: T,
}

/// A response from the node.
#[derive(Debug)]
pub struct Response {
    pub id: u64,
    pub status: String,
    pub data: Vec<u8>,
}

/// An error reported by the node.
#[derive(Debug)]
pub struct Error {
    pub code: String,
    pub message: String,
    pub stack: String,
}

/// A message of a stream the miner has subscribed to.
#[derive(Debug)]
pub struct StreamResponse<T> {
    pub _type: String,
    pub data: StreamWrapper<T>,
}

/// The payload of a stream message.
#[derive(Debug)]
pub struct StreamWrapper<T> {
    pub id: u64,
    pub data: T,
}

/// The header bytes of a job.
#[derive(Debug, Clone)]
pub struct MinerJobBytes {
    pub _type: String,
    pub data: Vec<u8>,
}

/// A mining job sent by the node.
#[derive(Debug, Clone)]
pub struct MinerJob {
    pub bytes: MinerJobBytes,
    pub mining_request_id: u32,
    pub sequence: u64,
    pub target: String,
}

/// The message that reports a mined block to the node.
#[derive(Debug)]
pub struct MinerSuccessfullyMined {
    pub mining_request_id: u32,
    pub randomness: usize,
}

} // verus!
