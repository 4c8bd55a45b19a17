use vstd::prelude::*;
use std::sync::Arc;
use std::sync::atomic::AtomicUsize;
use crate::mining::header::{mine_header, is_batch_outcome, RANDOMNESS_LEN};

verus! {

/// A job as the worker threads hold it: the header, the target, the ids, and the
/// randomness counter that all workers of the job share.
#[derive(Clone, Debug)]
pub struct WorkerJobData {
    pub bytes: Vec<u8>,
    pub target: [u8; 32],
    pub mining_request_id: u32,
    pub sequence: u64,
    pub randomness: Arc<AtomicUsize>,
}

/// A command to a worker thread.
#[derive(Debug)]
pub enum WorkerCmd {
    Job { job_data: WorkerJobData },
    Stop,
}

/// A solution found by a worker.
#[derive(Copy, Clone, Debug)]
pub struct WorkerFound {
    pub mining_request_id: u32,
    pub randomness: usize,
}

/// What a worker's poll of its command channel gave.
#[derive(Debug)]
pub enum WorkerEvent {
    /// A command arrived.
    Command(WorkerCmd),
    /// No command is waiting.
    Empty,
    /// The sending side is gone.
    Disconnected,
}

/// What a worker does after one poll of its command channel.
#[derive(Debug)]
pub enum WorkerStep {
    /// Leave the loop: a stop command arrived.
    Stop,
    /// Poll again: there is no job yet.
    Idle,
    /// One batch of the current job was mined; a solution is to be sent where there is one.
    Mined(Option<WorkerFound>),
}

/// `rand::random::<usize>()`: a random value; nothing is known of which.
#[verifier::external_body]
fn random_usize() -> usize {
    rand::random::<usize>()
}

/// A job for the workers, with a fresh shared randomness counter that starts at a random
/// value.
pub fn new_job_data(bytes: Vec<u8>, target: [u8; 32], mining_request_id: u32, sequence: u64) -> (j: WorkerJobData)
    ensures
        j.bytes@ == bytes@,
        j.target == target,
        j.mining_request_id == mining_request_id,
        j.sequence == sequence,
{
    let rnd = random_usize();
    WorkerJobData {
        bytes: bytes,
        target: target,
        mining_request_id: mining_request_id,
        sequence: sequence,
        randomness: Arc::new(AtomicUsize::new(rnd)),
    }
}

/// The solution report for a batch outcome of a job's request (the randomness is kept
/// in a `usize`).
pub open spec fn worker_found_of(mining_request_id: u32, outcome: Option<u64>) -> Option<WorkerFound> {
    match outcome {
        Some(r) => Some(WorkerFound { mining_request_id: mining_request_id, randomness: r as usize }),
        None => None,
    }
}

/// Whether `found` is what mining `batch_size` randomness values of the job from `start`
/// gives: the first solving value of the batch, reported for the job's request, or `None`.
pub open spec fn is_worker_outcome(job: WorkerJobData, start: usize, batch_size: usize, found: Option<WorkerFound>) -> bool {
    exists|outcome: Option<u64>|
        #![trigger worker_found_of(job.mining_request_id, outcome)]
        is_batch_outcome(job.bytes@, start as u64, job.target@, batch_size as nat, outcome)
            && found == worker_found_of(job.mining_request_id, outcome)
}

/// Mines `batch_size` randomness values of the job, starting at `start`.
pub fn mine_batch(job: &WorkerJobData, start: usize, batch_size: usize) -> (found: Option<WorkerFound>)
    requires
        job.bytes@.len() + RANDOMNESS_LEN <= usize::MAX,
    ensures
        is_worker_outcome(*job, start, batch_size, found),
        found matches Some(w) ==> w.mining_request_id == job.mining_request_id,
{
    let r = mine_header(job.mining_request_id, job.bytes.as_slice(), start as u64, &job.target, batch_size as u64);
    let found = match r.randomness {
        Some(randomness) => Some(
            WorkerFound { mining_request_id: job.mining_request_id, randomness: #[verifier::truncate] (randomness as usize) },
        ),
        None => None,
    };
    assert(found == worker_found_of(job.mining_request_id, r.randomness));
    found
}

/// The job a worker holds after an event: the job of a job command, else the one it held.
pub open spec fn job_after_event(job: Option<WorkerJobData>, event: WorkerEvent) -> Option<WorkerJobData> {
    match event {
        WorkerEvent::Command(WorkerCmd::Job { job_data }) => Some(job_data),
        _ => job,
    }
}

/// Whether a worker step from job `before` on `event` may end with `step` and job `after`:
/// the job follows the event; a stop command stops without mining; with no job and no
/// command the worker idles; otherwise it mines one batch of the job it now holds, from
/// some start, and reports solutions for that job's request.
pub open spec fn is_worker_step(
    before: Option<WorkerJobData>,
    event: WorkerEvent,
    batch_size: usize,
    step: WorkerStep,
    after: Option<WorkerJobData>,
) -> bool {
    &&& after == job_after_event(before, event)
    &&& (step is Stop <==> is_stop_command(event))
    &&& (step is Idle <==> (event is Empty && before is None))
    &&& (step is Mined ==> mined_from(after, batch_size, step->Mined_0))
}

/// Whether an event is a stop command.
pub open spec fn is_stop_command(event: WorkerEvent) -> bool {
    match event {
        WorkerEvent::Command(WorkerCmd::Stop) => true,
        _ => false,
    }
}

/// Whether `found` is the outcome of one batch of the held job `job` from some start,
/// reported for that job's request.
pub open spec fn mined_from(job: Option<WorkerJobData>, batch_size: usize, found: Option<WorkerFound>) -> bool {
    match job {
        Some(j) => {
            &&& exists|start: usize| is_worker_outcome(j, start, batch_size, found)
            &&& (found matches Some(w) ==> w.mining_request_id == j.mining_request_id)
        },
        None => false,
    }
}

/// The request id of the last job command among the first `n` events, if any.
pub open spec fn latest_job_id(events: Seq<WorkerEvent>, n: int) -> Option<u32>
    decreases n,
{
    if n <= 0 {
        None
    } else {
        match events[n - 1] {
            WorkerEvent::Command(WorkerCmd::Job { job_data }) => Some(job_data.mining_request_id),
            _ => latest_job_id(events, n - 1),
        }
    }
}

/// The run of a worker that starts with no job: `jobs[i]` is held before the `i`-th
/// event, and the `i`-th step takes it to `jobs[i + 1]`.
pub open spec fn is_worker_run(
    jobs: Seq<Option<WorkerJobData>>,
    events: Seq<WorkerEvent>,
    steps: Seq<WorkerStep>,
    batch_size: usize,
) -> bool {
    &&& jobs.len() == events.len() + 1
    &&& steps.len() == events.len()
    &&& jobs[0] is None
    &&& forall|i: int| 0 <= i < events.len() ==> #[trigger] is_worker_step(jobs[i], events[i], batch_size, steps[i], jobs[i + 1])
}

/// Along a run, the held job is the one of the last job command so far.
proof fn lemma_worker_run_holds_latest_job(
    jobs: Seq<Option<WorkerJobData>>,
    events: Seq<WorkerEvent>,
    steps: Seq<WorkerStep>,
    batch_size: usize,
    n: int,
)
    requires
        is_worker_run(jobs, events, steps, batch_size),
        0 <= n <= events.len(),
    ensures
        jobs[n] is None <==> latest_job_id(events, n) is None,
        jobs[n] matches Some(j) ==> latest_job_id(events, n) == Some(j.mining_request_id),
    decreases n,
{
    if n > 0 {
        lemma_worker_run_holds_latest_job(jobs, events, steps, batch_size, n - 1);
        let k = n - 1;
        assert(is_worker_step(jobs[k], events[k], batch_size, steps[k], jobs[k + 1]));
        assert(jobs[k + 1] == jobs[n]);
    }
}

/// A worker that starts with no job mines nothing before its first job command, and
/// every solution it reports is for the request of the last job command it received.
/// A stop command ends nothing but the step it comes in: that step mines nothing.
pub proof fn lemma_worker_run_reports_latest_job(
    jobs: Seq<Option<WorkerJobData>>,
    events: Seq<WorkerEvent>,
    steps: Seq<WorkerStep>,
    batch_size: usize,
)
    requires
        is_worker_run(jobs, events, steps, batch_size),
    ensures
        forall|i: int| 0 <= i < steps.len() && #[trigger] steps[i] is Mined ==> latest_job_id(events, i + 1) is Some,
        forall|i: int| 0 <= i < steps.len() ==> (#[trigger] steps[i] matches WorkerStep::Mined(Some(w))
            ==> latest_job_id(events, i + 1) == Some(w.mining_request_id)),
        forall|i: int| 0 <= i < steps.len() && is_stop_command(#[trigger] events[i]) ==> steps[i] is Stop,
{
    assert forall|i: int| 0 <= i < steps.len() implies (#[trigger] steps[i] is Mined ==> latest_job_id(events, i + 1) is Some)
        && (steps[i] matches WorkerStep::Mined(Some(w)) ==> latest_job_id(events, i + 1) == Some(w.mining_request_id)) by {
        lemma_worker_run_holds_latest_job(jobs, events, steps, batch_size, i + 1);
        assert(is_worker_step(jobs[i], events[i], batch_size, steps[i], jobs[i + 1]));
    }
    assert forall|i: int| 0 <= i < steps.len() && is_stop_command(#[trigger] events[i]) implies steps[i] is Stop by {
        assert(is_worker_step(jobs[i], events[i], batch_size, steps[i], jobs[i + 1]));
    }
}

/// Takes the start of the next batch from a job's shared randomness counter and moves
/// the counter on by `batch_size`; which value comes back depends on the other workers.
fn claim_batch_start(counter: &AtomicUsize, batch_size: usize) -> usize {
    counter.fetch_add(batch_size, std::sync::atomic::Ordering::SeqCst)
}

/// One round of a worker's loop. A job command replaces the current job, a stop command
/// ends the loop; then, where there is a job, one batch of it is mined from a start taken
/// from the job's shared counter. The caller polls the command channel and sends the
/// solution; a closed channel is its to handle (the worker panics).
pub fn worker_step(job: &mut Option<WorkerJobData>, event: WorkerEvent, batch_size: usize) -> (step: WorkerStep)
    requires
        !(event is Disconnected),
        *old(job) matches Some(j) ==> j.bytes@.len() + RANDOMNESS_LEN <= usize::MAX,
        event matches WorkerEvent::Command(WorkerCmd::Job { job_data }) ==> job_data.bytes@.len()
            + RANDOMNESS_LEN <= usize::MAX,
    ensures
        event matches WorkerEvent::Command(WorkerCmd::Stop) ==> step is Stop && *final(job) == *old(job),
        event matches WorkerEvent::Command(WorkerCmd::Job { job_data }) ==> *final(job) == Some(job_data),
        event is Empty ==> *final(job) == *old(job),
        step is Idle <==> (event is Empty && *old(job) is None),
        step matches WorkerStep::Mined(found) ==> (*final(job) matches Some(j) && exists|start: usize|
            is_worker_outcome(j, start, batch_size, found)),
        step is Stop <==> event matches WorkerEvent::Command(WorkerCmd::Stop),
        is_worker_step(*old(job), event, batch_size, step, *final(job)),
{
    match event {
        WorkerEvent::Command(WorkerCmd::Job { job_data }) => {
            *job = Some(job_data);
        },
        WorkerEvent::Command(WorkerCmd::Stop) => {
            return WorkerStep::Stop;
        },
        WorkerEvent::Empty => {
            if job.is_none() {
                return WorkerStep::Idle;
            }
        },
        WorkerEvent::Disconnected => {
            assert(false);
            return WorkerStep::Idle;
        },
    }
    match job {
        Some(job_data) => {
            let start = claim_batch_start(&*job_data.randomness, batch_size);
            let found = mine_batch(job_data, start, batch_size);
            WorkerStep::Mined(found)
        },
        None => WorkerStep::Idle,
    }
}

} // verus!
