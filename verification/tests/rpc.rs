use ironfish_miner::mining::worker_pool::WorkerFound;
use ironfish_miner::rpc::client::{mining_solution, successfully_mined, FoundPoll, SolutionError};
use ironfish_miner::rpc::ipc::{frame_message, read_json_frame, request_message, FrameError, READ_BUFFER_LEN};
use ironfish_miner::rpc::stream::Stream;

fn buffer(bytes: &[u8]) -> [u8; READ_BUFFER_LEN] {
    let mut buf = [0u8; READ_BUFFER_LEN];
    buf[..bytes.len()].copy_from_slice(bytes);
    buf
}

#[test]
fn frame_appends_delimiter() {
    assert_eq!(frame_message("{\"a\":1}"), b"{\"a\":1}\x0c".to_vec());
    assert_eq!(frame_message(""), vec![0x0c]);
}

#[test]
fn framed_message_reads_back() {
    let json = "{\"type\":\"message\",\"data\":{\"mid\":0}}";
    let buf = buffer(&frame_message(json));
    assert_eq!(read_json_frame(&buf), Ok(json.as_bytes().to_vec()));
}

#[test]
fn only_the_first_message_is_read() {
    let mut bytes = frame_message("first");
    bytes.extend(frame_message("second"));
    assert_eq!(read_json_frame(&buffer(&bytes)), Ok(b"first".to_vec()));
}

#[test]
fn unterminated_message_keeps_the_padding() {
    let buf = buffer(b"abc");
    let r = read_json_frame(&buf).unwrap();
    assert_eq!(r.len(), READ_BUFFER_LEN);
    assert_eq!(&r[..3], b"abc");
}

#[test]
fn full_buffer_without_delimiter_overflows() {
    let buf = [b'x'; READ_BUFFER_LEN];
    assert_eq!(read_json_frame(&buf), Err(FrameError::BufferOverflow));
    let mut full = [b'y'; READ_BUFFER_LEN];
    full[READ_BUFFER_LEN - 1] = 0x0c;
    assert_eq!(read_json_frame(&full).unwrap().len(), READ_BUFFER_LEN - 1);
}

#[test]
fn request_envelope() {
    let m = request_message("miner/newBlocksStream", 5u8);
    assert_eq!(m._type, "message");
    assert_eq!(m.data.mid, 0);
    assert_eq!(m.data._type, "miner/newBlocksStream");
    assert_eq!(m.data.data, 5);
}

#[test]
fn found_block_is_reported() {
    let f = WorkerFound { mining_request_id: 2, randomness: 12312312312 };
    let m = successfully_mined(f);
    assert_eq!(m.mining_request_id, 2);
    assert_eq!(m.randomness, 12312312312);
    match mining_solution(FoundPoll::Found(f)) {
        Ok(Some(m)) => {
            assert_eq!(m.mining_request_id, 2);
            assert_eq!(m.randomness, 12312312312);
        }
        _ => panic!("expected a report"),
    }
    assert!(matches!(mining_solution(FoundPoll::Empty), Ok(None)));
    assert!(matches!(mining_solution(FoundPoll::Disconnected), Err(SolutionError::ChannelClosed)));
}

#[test]
fn stream_is_first_in_first_out() {
    let mut s = Stream::new();
    assert!(!s.is_closed());
    s.write(1);
    s.write(2);
    s.write(3);
    assert_eq!(s.next(), 1);
    s.write(4);
    assert_eq!(s.next(), 2);
    assert_eq!(s.next(), 3);
    assert_eq!(s.next(), 4);
}

#[test]
fn closed_stream_ignores_writes() {
    let mut s = Stream::new();
    s.write("a");
    s.close();
    assert!(s.is_closed());
    s.write("b");
    s.close();
    assert!(s.is_closed());
}
