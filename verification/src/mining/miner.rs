use vstd::prelude::*;
use crate::mining::target::{target_from_decimal, unsigned_decimal, be_value, u256_bound, TargetError};
use crate::mining::worker_pool::{new_job_data, WorkerJobData};
use crate::rpc::types::MinerJob;

verus! {

/// The mining side: a pool of worker threads that mine jobs in batches.
#[derive(Debug)]
pub struct Miner {
    pub num_threads: usize,
    pub batch_size: usize,
}

impl Miner {
    /// A miner with the given number of worker threads and batch size.
    pub fn new(num_threads: usize, batch_size: usize) -> (m: Self)
        ensures
            m.num_threads == num_threads,
            m.batch_size == batch_size,
    {
        Miner { num_threads: num_threads, batch_size: batch_size }
    }

    /// Turns a job from the node into the job the workers mine: its decimal target
    /// becomes 32 big-endian bytes, and a fresh shared randomness counter is made.
    pub fn prepare_job(job: MinerJob) -> (r: Result<WorkerJobData, TargetError>)
        ensures
            r matches Ok(j) ==> {
                &&& j.bytes@ == job.bytes.data@
                &&& unsigned_decimal(job.target@) == Some(be_value(j.target@))
                &&& j.mining_request_id == job.mining_request_id
                &&& j.sequence == job.sequence
            },
            r is Ok <==> (unsigned_decimal(job.target@) matches Some(v) && v < u256_bound()),
            r == Err::<WorkerJobData, TargetError>(TargetError::NotANumber) <==> unsigned_decimal(job.target@) is None,
    {
        match target_from_decimal(job.target.as_str()) {
            Ok(target) => Ok(new_job_data(job.bytes.data, target, job.mining_request_id, job.sequence)),
            Err(e) => Err(e),
        }
    }
}

} // verus!
