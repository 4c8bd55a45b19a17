use ironfish_miner::mining::header::{header_bytes_with_randomness, mine_header, MineRusult};
use ironfish_miner::mining::miner::Miner;
use ironfish_miner::mining::target::{hash_meets_target, target_from_decimal, TargetError};
use ironfish_miner::mining::worker_pool::{
    mine_batch, new_job_data, worker_step, WorkerCmd, WorkerEvent, WorkerJobData, WorkerStep,
};
use ironfish_miner::rpc::types::{MinerJob, MinerJobBytes};
use std::sync::atomic::{AtomicUsize, Ordering};
use std::sync::Arc;

fn hash_be(header: &[u8], randomness: u64) -> [u8; 32] {
    let mut bytes = randomness.to_le_bytes().to_vec();
    bytes.extend_from_slice(header);
    let mut h = *blake3::hash(&bytes).as_bytes();
    h.reverse();
    h
}

fn minus_one(be: [u8; 32]) -> [u8; 32] {
    let mut r = be;
    let mut i = 31;
    loop {
        if r[i] > 0 {
            r[i] -= 1;
            break;
        }
        r[i] = 0xff;
        i -= 1;
    }
    r
}

#[test]
fn empty_result_is_not_found() {
    let r = MineRusult::empty();
    assert_eq!(r.initial_randomness, 0);
    assert_eq!(r.randomness, None);
    assert_eq!(r.mining_request_id, None);
    assert!(!r.found());
}

#[test]
fn found_needs_randomness_and_request_id() {
    let r = MineRusult { initial_randomness: 1, randomness: Some(3), mining_request_id: None };
    assert!(!r.found());
    let r = MineRusult { initial_randomness: 1, randomness: None, mining_request_id: Some(3) };
    assert!(!r.found());
    let r = MineRusult { initial_randomness: 1, randomness: Some(3), mining_request_id: Some(7) };
    assert!(r.found());
}

#[test]
fn header_bytes_start_with_little_endian_randomness() {
    let h = header_bytes_with_randomness(&[9, 8, 7], 0x0102_0304_0506_0708);
    assert_eq!(h, vec![8, 7, 6, 5, 4, 3, 2, 1, 9, 8, 7]);
    assert_eq!(header_bytes_with_randomness(&[], 0), vec![0u8; 8]);
}

#[test]
fn hash_is_read_little_endian_and_target_big_endian() {
    let mut one_le = [0u8; 32];
    one_le[0] = 1;
    let mut one_be = [0u8; 32];
    one_be[31] = 1;
    assert!(hash_meets_target(&one_le, &one_be));
    assert!(!hash_meets_target(&one_le, &[0u8; 32]));
    assert!(!hash_meets_target(&one_be, &one_be));
    assert!(hash_meets_target(&[0xff; 32], &[0xff; 32]));
    assert!(hash_meets_target(&[0u8; 32], &[0u8; 32]));
}

#[test]
fn easiest_target_is_met_by_first_randomness() {
    let r = mine_header(7, b"header", 42, &[0xff; 32], 10);
    assert_eq!(r.initial_randomness, 42);
    assert_eq!(r.randomness, Some(42));
    assert_eq!(r.mining_request_id, Some(7));
    assert!(r.found());
}

#[test]
fn empty_batch_finds_nothing() {
    let r = mine_header(7, b"header", 42, &[0xff; 32], 0);
    assert_eq!(r.initial_randomness, 42);
    assert_eq!(r.randomness, None);
    assert_eq!(r.mining_request_id, None);
}

#[test]
fn zero_target_is_not_met() {
    let r = mine_header(1, b"some header", 0, &[0u8; 32], 20);
    assert!(!r.found());
    assert_eq!(r.initial_randomness, 0);
}

#[test]
fn target_equal_to_hash_is_met_and_one_below_is_not() {
    let header = b"block header without randomness";
    let target = hash_be(header, 1000);
    let r = mine_header(3, header, 1000, &target, 1);
    assert_eq!(r.randomness, Some(1000));
    let r = mine_header(3, header, 1000, &minus_one(target), 1);
    assert_eq!(r.randomness, None);
}

#[test]
fn first_solving_randomness_is_returned() {
    let header = b"another header";
    let target = hash_be(header, 5);
    let expected = (0u64..=5).find(|r| hash_be(header, *r) <= target).unwrap();
    let r = mine_header(9, header, 0, &target, 10);
    assert_eq!(r.randomness, Some(expected));
    assert_eq!(r.mining_request_id, Some(9));
}

#[test]
fn randomness_wraps_around_after_max() {
    let header = b"wrap";
    let target = hash_be(header, 0);
    let expected = if hash_be(header, u64::MAX) <= target { u64::MAX } else { 0 };
    let r = mine_header(1, header, u64::MAX, &target, 2);
    assert_eq!(r.randomness, Some(expected));
}

#[test]
fn mining_twice_gives_the_same_result() {
    let header = b"deterministic";
    let target = hash_be(header, 77);
    let a = mine_header(4, header, 70, &target, 20);
    let b = mine_header(4, header, 70, &target, 20);
    assert_eq!(a.randomness, b.randomness);
    assert_eq!(a.mining_request_id, b.mining_request_id);
    assert!(a.found());
}

#[test]
fn decimal_target_becomes_right_aligned_big_endian_bytes() {
    let mut expected = [0u8; 32];
    expected[30] = 4;
    expected[31] = 101;
    assert_eq!(target_from_decimal("1125"), Ok(expected));
    assert_eq!(target_from_decimal("+1125"), Ok(expected));
    assert_eq!(target_from_decimal("1_125"), Ok(expected));
    assert_eq!(target_from_decimal("0"), Ok([0u8; 32]));
}

#[test]
fn largest_target_fits_and_one_more_does_not() {
    let max = "115792089237316195423570985008687907853269984665640564039457584007913129639935";
    let over = "115792089237316195423570985008687907853269984665640564039457584007913129639936";
    assert_eq!(target_from_decimal(max), Ok([0xff; 32]));
    assert_eq!(target_from_decimal(over), Err(TargetError::TooLarge));
}

#[test]
fn malformed_targets_are_refused() {
    for s in ["", "+", "++1", "_1", "-1", "12a", " 1", "0x10"] {
        assert_eq!(target_from_decimal(s), Err(TargetError::NotANumber), "{}", s);
    }
}

fn job(target: &str) -> MinerJob {
    MinerJob {
        bytes: MinerJobBytes { _type: "Buffer".to_string(), data: vec![1, 2, 3] },
        mining_request_id: 11,
        sequence: 5,
        target: target.to_string(),
    }
}

#[test]
fn miner_keeps_its_settings() {
    let m = Miner::new(4, 1000);
    assert_eq!(m.num_threads, 4);
    assert_eq!(m.batch_size, 1000);
}

#[test]
fn prepared_job_carries_the_job() {
    let j = Miner::prepare_job(job("258")).unwrap();
    assert_eq!(j.bytes, vec![1, 2, 3]);
    assert_eq!(j.mining_request_id, 11);
    assert_eq!(j.sequence, 5);
    let mut t = [0u8; 32];
    t[30] = 1;
    t[31] = 2;
    assert_eq!(j.target, t);
    assert_eq!(Miner::prepare_job(job("x")).err(), Some(TargetError::NotANumber));
}

#[test]
fn new_job_data_keeps_fields() {
    let j = new_job_data(vec![4, 5], [7u8; 32], 3, 9);
    assert_eq!(j.bytes, vec![4, 5]);
    assert_eq!(j.target, [7u8; 32]);
    assert_eq!(j.mining_request_id, 3);
    assert_eq!(j.sequence, 9);
}

fn job_data(counter: usize) -> WorkerJobData {
    WorkerJobData {
        bytes: b"worker header".to_vec(),
        target: [0xff; 32],
        mining_request_id: 21,
        sequence: 1,
        randomness: Arc::new(AtomicUsize::new(counter)),
    }
}

#[test]
fn mine_batch_reports_for_the_job() {
    let j = job_data(0);
    let f = mine_batch(&j, 12, 4).unwrap();
    assert_eq!(f.mining_request_id, 21);
    assert_eq!(f.randomness, 12);
    let mut hard = job_data(0);
    hard.target = [0u8; 32];
    assert!(mine_batch(&hard, 12, 4).is_none());
}

#[test]
fn worker_stops_on_stop_command() {
    let mut job = Some(job_data(0));
    let step = worker_step(&mut job, WorkerEvent::Command(WorkerCmd::Stop), 10);
    assert!(matches!(step, WorkerStep::Stop));
    assert!(job.is_some());
}

#[test]
fn worker_idles_without_job() {
    let mut job: Option<WorkerJobData> = None;
    let step = worker_step(&mut job, WorkerEvent::Empty, 10);
    assert!(matches!(step, WorkerStep::Idle));
    assert!(job.is_none());
}

#[test]
fn worker_mines_a_new_job_from_the_shared_counter() {
    let mut job: Option<WorkerJobData> = None;
    let data = job_data(100);
    let counter = data.randomness.clone();
    let step = worker_step(&mut job, WorkerEvent::Command(WorkerCmd::Job { job_data: data }), 10);
    match step {
        WorkerStep::Mined(Some(f)) => {
            assert_eq!(f.randomness, 100);
            assert_eq!(f.mining_request_id, 21);
        }
        _ => panic!("expected a solution"),
    }
    assert_eq!(counter.load(Ordering::SeqCst), 110);
    let step = worker_step(&mut job, WorkerEvent::Empty, 10);
    match step {
        WorkerStep::Mined(Some(f)) => assert_eq!(f.randomness, 110),
        _ => panic!("expected a solution"),
    }
    assert_eq!(counter.load(Ordering::SeqCst), 120);
}

#[test]
fn largest_target_is_met_by_first_candidate() {
    let r = mine_header(7, &[1, 2, 3], 5, &[0xff; 32], 10);
    assert_eq!(r.initial_randomness, 5);
    assert_eq!(r.randomness, Some(5));
    assert_eq!(r.mining_request_id, Some(7));
}

#[test]
fn longer_batch_keeps_the_first_solution() {
    let header = b"batch law";
    let target = hash_be(header, 3);
    let short = mine_header(2, header, 0, &target, 4);
    assert!(short.found());
    let long = mine_header(2, header, 0, &target, 40);
    assert_eq!(short.randomness, long.randomness);
    assert_eq!(short.mining_request_id, long.mining_request_id);
    assert_eq!(short.initial_randomness, long.initial_randomness);
}

#[test]
fn higher_target_finds_no_later_solution() {
    let header = b"target law";
    let low = hash_be(header, 6);
    let r_low = mine_header(2, header, 0, &low, 10);
    let r_high = mine_header(2, header, 0, &[0xff; 32], 10);
    assert!(r_low.found());
    assert!(r_high.randomness.unwrap() <= r_low.randomness.unwrap());
}

#[test]
fn worker_reports_for_the_latest_job_only() {
    let mut job: Option<WorkerJobData> = None;
    assert!(matches!(worker_step(&mut job, WorkerEvent::Empty, 4), WorkerStep::Idle));
    let first = job_data(0);
    match worker_step(&mut job, WorkerEvent::Command(WorkerCmd::Job { job_data: first }), 4) {
        WorkerStep::Mined(Some(f)) => assert_eq!(f.mining_request_id, 21),
        _ => panic!("expected a solution"),
    }
    let mut second = job_data(0);
    second.mining_request_id = 22;
    match worker_step(&mut job, WorkerEvent::Command(WorkerCmd::Job { job_data: second }), 4) {
        WorkerStep::Mined(Some(f)) => assert_eq!(f.mining_request_id, 22),
        _ => panic!("expected a solution"),
    }
    match worker_step(&mut job, WorkerEvent::Empty, 4) {
        WorkerStep::Mined(Some(f)) => assert_eq!(f.mining_request_id, 22),
        _ => panic!("expected a solution"),
    }
    assert!(matches!(worker_step(&mut job, WorkerEvent::Command(WorkerCmd::Stop), 4), WorkerStep::Stop));
}
