use vstd::prelude::*;
use vstd::utf8::{encode_utf8, valid_utf8};
use crate::rpc::types::{Message, Request};

verus! {

/// The byte that ends each JSON message on the IPC socket (the character U+000C).
pub const IPC_DELIMITER: u8 = 0x0c;

/// The size of the buffer that one read from the socket fills.
pub const READ_BUFFER_LEN: usize = 4096;

/// Why a read buffer holds no complete message.
#[derive(Debug, Clone, Copy, PartialEq, Eq, Structural)]
pub enum FrameError {
    /// The buffer is full and does not end with the delimiter: the message is longer
    /// than one read ("buffer overflow").
    BufferOverflow,
}

/// The index of the first occurrence of `b` in `s`, or the length of `s` if there is none.
pub open spec fn first_index_of(s: Seq<u8>, b: u8) -> nat
    decreases s.len(),
{
    if s.len() == 0 {
        0
    } else if s[0] == b {
        0
    } else {
        1 + first_index_of(s.drop_first(), b)
    }
}

/// What a read buffer yields: nothing when its last byte is neither NUL nor the
/// delimiter, else everything before the first delimiter (the whole buffer if there is none).
pub open spec fn spec_read_frame(buf: Seq<u8>) -> Result<Seq<u8>, FrameError> {
    if buf.last() != 0 && buf.last() != IPC_DELIMITER {
        Err(FrameError::BufferOverflow)
    } else {
        Ok(buf.take(first_index_of(buf, IPC_DELIMITER) as int))
    }
}

/// The first occurrence of `b` is at `k` when `b` does not occur before `k` and `k` is
/// the end or holds `b`.
pub proof fn lemma_first_index_of(s: Seq<u8>, b: u8, k: int)
    requires
        0 <= k <= s.len(),
        forall|j: int| 0 <= j < k ==> s[j] != b,
        k == s.len() || s[k] == b,
    ensures
        first_index_of(s, b) == k,
    decreases k,
{
    if k > 0 {
        let t = s.drop_first();
        assert forall|j: int| 0 <= j < k - 1 implies t[j] != b by {
            assert(t[j] == s[j + 1]);
        }
        lemma_first_index_of(t, b, k - 1);
    }
}

/// The bytes sent for one JSON message: the message followed by the delimiter.
pub fn frame_message(json: &str) -> (framed: Vec<u8>)
    ensures
        framed@ == encode_utf8(json@).push(IPC_DELIMITER),
{
    let bytes = json.as_bytes();
    let n = bytes.len();
    let mut framed: Vec<u8> = Vec::new();
    let mut k: usize = 0;
    while k < n
        invariant
            n == bytes@.len(),
            bytes@ == encode_utf8(json@),
            k <= n,
            framed@ == bytes@.take(k as int),
        decreases n - k,
    {
        framed.push(bytes[k]);
        k = k + 1;
        assert(framed@ =~= bytes@.take(k as int));
    }
    assert(bytes@.take(n as int) =~= bytes@);
    framed.push(IPC_DELIMITER);
    framed
}

/// The first JSON message in a buffer filled by one read from the socket (the rest of
/// the buffer stays zero): refused when the buffer is full without ending on the
/// delimiter, else the bytes before the first delimiter.
pub fn read_json_frame(buf: &[u8; READ_BUFFER_LEN]) -> (r: Result<Vec<u8>, FrameError>)
    requires
        valid_utf8(buf@),
    ensures
        match r {
            Ok(v) => spec_read_frame(buf@) == Ok::<Seq<u8>, FrameError>(v@),
            Err(e) => spec_read_frame(buf@) == Err::<Seq<u8>, FrameError>(e),
        },
{
    let last = buf[READ_BUFFER_LEN - 1];
    assert(last == buf@.last());
    if last != 0 && last != IPC_DELIMITER {
        return Err(FrameError::BufferOverflow);
    }
    let mut out: Vec<u8> = Vec::new();
    let mut k: usize = 0;
    while k < READ_BUFFER_LEN && buf[k] != IPC_DELIMITER
        invariant
            buf@.len() == READ_BUFFER_LEN,
            k <= READ_BUFFER_LEN,
            forall|j: int| 0 <= j < k ==> buf@[j] != IPC_DELIMITER,
            out@ == buf@.take(k as int),
        decreases READ_BUFFER_LEN - k,
    {
        out.push(buf[k]);
        k = k + 1;
        assert(out@ =~= buf@.take(k as int));
    }
    proof {
        lemma_first_index_of(buf@, IPC_DELIMITER, k as int);
    }
    Ok(out)
}

/// A framed message, followed by the zero bytes that were in the buffer before the read,
/// reads back as the message itself when the message holds no delimiter and fits.
pub proof fn lemma_read_gives_back_framed(payload: Seq<u8>, buf: Seq<u8>)
    requires
        buf.len() == READ_BUFFER_LEN,
        payload.len() < READ_BUFFER_LEN,
        forall|j: int| 0 <= j < payload.len() ==> payload[j] != IPC_DELIMITER,
        buf.take(payload.len() + 1int) == payload.push(IPC_DELIMITER),
        forall|j: int| payload.len() < j < buf.len() ==> buf[j] == 0,
    ensures
        spec_read_frame(buf) == Ok::<Seq<u8>, FrameError>(payload),
{
    let k = payload.len() as int;
    assert forall|j: int| 0 <= j < k implies buf[j] != IPC_DELIMITER by {
        assert(buf[j] == buf.take(k + 1)[j]);
    }
    assert(buf[k] == buf.take(k + 1)[k]);
    lemma_first_index_of(buf, IPC_DELIMITER, k);
    assert(buf.take(k) =~= payload) by {
        assert forall|j: int| 0 <= j < k implies buf.take(k)[j] == payload[j] by {
            assert(buf[j] == buf.take(k + 1)[j]);
        }
    }
}

/// The message that asks the node for `route`: an envelope named "message" around a
/// request with message id 0.
pub fn request_message<T>(route: &str, data: T) -> (m: Message<T>)
    ensures
        m._type@ == seq!['m', 'e', 's', 's', 'a', 'g', 'e'],
        m.data.mid == 0,
        m.data._type@ == route@,
        m.data.data == data,
{
    let r = Request { mid: 0, _type: route.to_owned(), data: data };
    let m = Message { _type: String::from_str("message"), data: r };
    proof {
        reveal_strlit("message");
    }
    m
}

} // verus!
