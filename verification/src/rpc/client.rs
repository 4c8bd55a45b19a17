use vstd::prelude::*;
use crate::mining::worker_pool::WorkerFound;
use crate::rpc::types::MinerSuccessfullyMined;

verus! {

/// The route that subscribes the miner to new block templates.
pub const NEW_BLOCKS_STREAM_ROUTE: &'static str = "miner/newBlocksStream";

/// The route that reports a mined block.
pub const SUCCESSFULLY_MINED_ROUTE: &'static str = "miner/successfullyMined";

/// What a poll of the channel of found blocks gave.
#[derive(Debug)]
pub enum FoundPoll {
    /// A worker found a block.
    Found(WorkerFound),
    /// Nothing is waiting.
    Empty,
    /// All workers are gone.
    Disconnected,
}

/// Why no solution can be reported.
#[derive(Debug, Clone, Copy, PartialEq, Eq, Structural)]
pub enum SolutionError {
    /// The channel of found blocks was dropped.
    ChannelClosed,
}

/// The report of a found block to the node.
pub fn successfully_mined(found: WorkerFound) -> (m: MinerSuccessfullyMined)
    ensures
        m.randomness == found.randomness,
        m.mining_request_id == found.mining_request_id,
{
    MinerSuccessfullyMined { randomness: found.randomness, mining_request_id: found.mining_request_id }
}

/// What to report after polling the channel of found blocks: the block's report, nothing
/// when the channel is empty, an error when it was dropped.
pub fn mining_solution(poll: FoundPoll) -> (r: Result<Option<MinerSuccessfullyMined>, SolutionError>)
    ensures
        poll matches FoundPoll::Found(f) ==> (r matches Ok(Some(m)) && m.randomness == f.randomness
            && m.mining_request_id == f.mining_request_id),
        poll is Empty ==> r matches Ok(None),
        poll is Disconnected ==> r == Err::<Option<MinerSuccessfullyMined>, SolutionError>(
            SolutionError::ChannelClosed,
        ),
{
    match poll {
        FoundPoll::Found(found) => Ok(Some(successfully_mined(found))),
        FoundPoll::Empty => Ok(None),
        FoundPoll::Disconnected => Err(SolutionError::ChannelClosed),
    }
}

} // verus!
