use vstd::prelude::*;
use vstd::bytes::{spec_u64_to_le_bytes, spec_u64_from_le_bytes, u64_to_le_bytes, lemma_auto_spec_u64_to_from_le_bytes};
use crate::mining::target::{le_value, be_value, hash_meets_target, lemma_le_value_bound, lemma_be_value_all_ff};

verus! {

/// Outcome of mining one batch of randomness values over a block header.
#[derive(Debug)]
pub struct MineRusult {
    pub initial_randomness: u64,
    pub randomness: Option<u64>,
    pub mining_request_id: Option<u32>,
}

impl MineRusult {
    /// A result that records no solution.
    pub fn empty() -> (r: Self)
        ensures
            r.initial_randomness == 0,
            r.randomness is None,
            r.mining_request_id is None,
    {
        MineRusult { initial_randomness: 0, randomness: None, mining_request_id: None }
    }

    /// Whether the result carries a solution: both the randomness and the request id are set.
    pub fn found(&self) -> (b: bool)
        ensures
            b == (self.randomness is Some && self.mining_request_id is Some),
    {
        self.randomness.is_some() && self.mining_request_id.is_some()
    }
}

/// The BLAKE3 digest (32 bytes) of a byte string.
pub uninterp spec fn blake3_digest(input: Seq<u8>) -> Seq<u8>;

/// The number of bytes that the randomness takes in front of a header.
pub const RANDOMNESS_LEN: usize = 8;

/// The `i`-th randomness value of a batch that starts at `initial`, wrapping around
/// from `u64::MAX` to 0.
pub open spec fn batch_randomness(initial: u64, i: int) -> u64 {
    ((initial as int + i) % 0x1_0000_0000_0000_0000int) as u64
}

/// The header that is hashed: the randomness as 8 little-endian bytes, then the
/// header bytes that were handed in.
pub open spec fn header_with_randomness(header: Seq<u8>, randomness: u64) -> Seq<u8> {
    spec_u64_to_le_bytes(randomness) + header
}

/// Whether a randomness value mines the header: the BLAKE3 digest of the header with
/// that randomness, read as a little-endian integer, is at most the big-endian target.
pub open spec fn solves(header: Seq<u8>, randomness: u64, target: Seq<u8>) -> bool {
    le_value(blake3_digest(header_with_randomness(header, randomness))) <= be_value(target)
}

/// Whether the `i`-th value of the batch is the first one that solves the header.
pub open spec fn is_first_solution(header: Seq<u8>, initial: u64, target: Seq<u8>, batch_size: nat, i: int) -> bool {
    &&& 0 <= i < batch_size
    &&& solves(header, batch_randomness(initial, i), target)
    &&& forall|j: int| 0 <= j < i ==> !solves(header, #[trigger] batch_randomness(initial, j), target)
}

/// Whether `outcome` is what mining `batch_size` randomness values from `initial` gives:
/// the first value of the batch that solves the header, or `None` when none does.
pub open spec fn is_batch_outcome(
    header: Seq<u8>,
    initial: u64,
    target: Seq<u8>,
    batch_size: nat,
    outcome: Option<u64>,
) -> bool {
    match outcome {
        Some(found) => exists|i: int|
            #[trigger] is_first_solution(header, initial, target, batch_size, i) && found == batch_randomness(initial, i),
        None => forall|j: int| 0 <= j < batch_size ==> !solves(header, #[trigger] batch_randomness(initial, j), target),
    }
}

/// The position in the batch of a found value.
pub open spec fn solution_index(header: Seq<u8>, initial: u64, target: Seq<u8>, batch_size: nat, found: u64) -> int {
    choose|i: int| #[trigger] is_first_solution(header, initial, target, batch_size, i) && found == batch_randomness(initial, i)
}

/// Whether the digest of every value that mining the batch tries, each one up to the
/// first that solves the header, has 32 bytes.
pub open spec fn tried_digests_have_32_bytes(header: Seq<u8>, initial: u64, target: Seq<u8>, batch_size: nat) -> bool {
    forall|j: int|
        0 <= j < batch_size && (forall|k: int| 0 <= k < j ==> !solves(header, #[trigger] batch_randomness(initial, k), target))
            ==> (#[trigger] blake3_digest(header_with_randomness(header, batch_randomness(initial, j)))).len() == 32
}

/// What `mine_header` returns: the start value, the first solving value of the batch
/// (or `None`), and the request id exactly when there is a solution.
pub open spec fn is_mine_result(
    mining_request_id: u32,
    header: Seq<u8>,
    initial: u64,
    target: Seq<u8>,
    batch_size: nat,
    r: MineRusult,
) -> bool {
    &&& r.initial_randomness == initial
    &&& r.randomness is Some <==> r.mining_request_id is Some
    &&& r.mining_request_id matches Some(id) ==> id == mining_request_id
    &&& is_batch_outcome(header, initial, target, batch_size, r.randomness)
}

/// `blake3::hash` of the header bytes, taken as its 32 bytes (`Hash::as_bytes`).
#[verifier::external_body]
fn hash_block_header(header_bytes: &[u8]) -> (r: [u8; 32])
    ensures
        r@ == blake3_digest(header_bytes@),
{
    *blake3::hash(header_bytes).as_bytes()
}

/// The header bytes with the randomness written into their first 8 bytes.
pub fn header_bytes_with_randomness(header_bytes_without_randomness: &[u8], randomness: u64) -> (r: Vec<u8>)
    requires
        header_bytes_without_randomness@.len() + RANDOMNESS_LEN <= usize::MAX,
    ensures
        r@ == header_with_randomness(header_bytes_without_randomness@, randomness),
{
    let rb = u64_to_le_bytes(randomness);
    let mut r: Vec<u8> = Vec::with_capacity(header_bytes_without_randomness.len() + RANDOMNESS_LEN);
    let mut k: usize = 0;
    while k < RANDOMNESS_LEN
        invariant
            rb@ == spec_u64_to_le_bytes(randomness),
            rb@.len() == 8,
            k <= 8,
            r@ == rb@.take(k as int),
        decreases 8 - k,
    {
        r.push(rb[k]);
        k = k + 1;
        assert(r@ =~= rb@.take(k as int));
    }
    let n = header_bytes_without_randomness.len();
    let mut j: usize = 0;
    while j < n
        invariant
            n == header_bytes_without_randomness@.len(),
            rb@.len() == 8,
            j <= n,
            r@ == rb@ + header_bytes_without_randomness@.take(j as int),
        decreases n - j,
    {
        r.push(header_bytes_without_randomness[j]);
        j = j + 1;
        assert(r@ =~= rb@ + header_bytes_without_randomness@.take(j as int));
    }
    assert(header_bytes_without_randomness@.take(n as int) =~= header_bytes_without_randomness@);
    r
}

/// Overwrites the randomness at the front of header bytes.
fn write_randomness(header_bytes: &mut Vec<u8>, randomness: u64)
    requires
        old(header_bytes)@.len() >= RANDOMNESS_LEN,
    ensures
        final(header_bytes)@ == spec_u64_to_le_bytes(randomness) + old(header_bytes)@.skip(RANDOMNESS_LEN as int),
{
    let rb = u64_to_le_bytes(randomness);
    let ghost rest = old(header_bytes)@.skip(8);
    let mut k: usize = 0;
    while k < RANDOMNESS_LEN
        invariant
            rb@ == spec_u64_to_le_bytes(randomness),
            rb@.len() == 8,
            k <= 8,
            header_bytes@.len() == rest.len() + 8,
            header_bytes@.skip(8) == rest,
            header_bytes@.take(k as int) == rb@.take(k as int),
        decreases 8 - k,
    {
        header_bytes.set(k, rb[k]);
        k = k + 1;
        assert(header_bytes@.take(k as int) =~= rb@.take(k as int));
        assert(header_bytes@.skip(8) =~= rest);
    }
    assert(header_bytes@ =~= header_bytes@.take(8) + header_bytes@.skip(8));
    assert(header_bytes@.take(8) =~= rb@);
}

/// Tries `batch_size` randomness values, starting at `initial_randomness` and counting up
/// with wrap-around, and returns the first one whose header hash meets the target.
pub fn mine_header(
    mining_request_id: u32,
    header_bytes_without_randomness: &[u8],
    initial_randomness: u64,
    target_value: &[u8; 32],
    batch_size: u64,
) -> (r: MineRusult)
    requires
        header_bytes_without_randomness@.len() + RANDOMNESS_LEN <= usize::MAX,
    ensures
        is_mine_result(
            mining_request_id,
            header_bytes_without_randomness@,
            initial_randomness,
            target_value@,
            batch_size as nat,
            r,
        ),
        tried_digests_have_32_bytes(
            header_bytes_without_randomness@,
            initial_randomness,
            target_value@,
            batch_size as nat,
        ),
{
    let mut header_bytes = header_bytes_with_randomness(header_bytes_without_randomness, initial_randomness);
    proof {
        lemma_header_with_randomness_roundtrip(header_bytes_without_randomness@, initial_randomness);
    }
    let mut i: u64 = 0;
    while i < batch_size
        invariant
            header_bytes_without_randomness@.len() + RANDOMNESS_LEN <= usize::MAX,
            header_bytes@.len() == header_bytes_without_randomness@.len() + RANDOMNESS_LEN,
            header_bytes@.skip(RANDOMNESS_LEN as int) == header_bytes_without_randomness@,
            i <= batch_size,
            forall|j: int| 0 <= j < i ==> !solves(
                header_bytes_without_randomness@,
                #[trigger] batch_randomness(initial_randomness, j),
                target_value@,
            ),
            forall|j: int| 0 <= j < i ==> (#[trigger] blake3_digest(
                header_with_randomness(header_bytes_without_randomness@, batch_randomness(initial_randomness, j)),
            )).len() == 32,
        decreases batch_size - i,
    {
        let randomness = initial_randomness.wrapping_add(i);
        assert(randomness == batch_randomness(initial_randomness, i as int));
        write_randomness(&mut header_bytes, randomness);
        proof {
            lemma_auto_spec_u64_to_from_le_bytes();
        }
        assert(header_bytes@.skip(RANDOMNESS_LEN as int) =~= header_bytes_without_randomness@);
        let block_hash = hash_block_header(header_bytes.as_slice());
        assert(blake3_digest(header_with_randomness(header_bytes_without_randomness@, batch_randomness(initial_randomness, i as int))).len() == 32);
        if hash_meets_target(&block_hash, target_value) {
            assert(is_first_solution(
                header_bytes_without_randomness@,
                initial_randomness,
                target_value@,
                batch_size as nat,
                i as int,
            ));
            return MineRusult {
                initial_randomness: initial_randomness,
                randomness: Some(randomness),
                mining_request_id: Some(mining_request_id),
            };
        }
        i = i + 1;
    }
    MineRusult { initial_randomness: initial_randomness, randomness: None, mining_request_id: None }
}

/// Mining is deterministic: a batch has at most one outcome.
pub proof fn lemma_batch_outcome_unique(
    header: Seq<u8>,
    initial: u64,
    target: Seq<u8>,
    batch_size: nat,
    a: Option<u64>,
    b: Option<u64>,
)
    requires
        is_batch_outcome(header, initial, target, batch_size, a),
        is_batch_outcome(header, initial, target, batch_size, b),
    ensures
        a == b,
{
    match (a, b) {
        (Some(fa), Some(fb)) => {
            let ia = solution_index(header, initial, target, batch_size, fa);
            let ib = solution_index(header, initial, target, batch_size, fb);
            assert(is_first_solution(header, initial, target, batch_size, ia));
            assert(is_first_solution(header, initial, target, batch_size, ib));
            if ia < ib {
                assert(!solves(header, batch_randomness(initial, ia), target));
            } else if ib < ia {
                assert(!solves(header, batch_randomness(initial, ib), target));
            }
        },
        (Some(fa), None) => {
            let ia = solution_index(header, initial, target, batch_size, fa);
            assert(is_first_solution(header, initial, target, batch_size, ia));
            assert(!solves(header, batch_randomness(initial, ia), target));
        },
        (None, Some(fb)) => {
            let ib = solution_index(header, initial, target, batch_size, fb);
            assert(is_first_solution(header, initial, target, batch_size, ib));
            assert(!solves(header, batch_randomness(initial, ib), target));
        },
        (None, None) => {},
    }
}

/// `mine_header` depends on its arguments alone: two calls with the same arguments
/// return equal results, field by field.
pub proof fn lemma_mine_result_deterministic(
    mining_request_id: u32,
    header: Seq<u8>,
    initial: u64,
    target: Seq<u8>,
    batch_size: nat,
    r1: MineRusult,
    r2: MineRusult,
)
    requires
        is_mine_result(mining_request_id, header, initial, target, batch_size, r1),
        is_mine_result(mining_request_id, header, initial, target, batch_size, r2),
    ensures
        r1 == r2,
{
    lemma_batch_outcome_unique(header, initial, target, batch_size, r1.randomness, r2.randomness);
}

/// A longer batch returns the same first solution: when mining `b1` values finds one,
/// mining `b2 >= b1` values from the same start gives the same result.
pub proof fn lemma_mine_result_longer_batch(
    mining_request_id: u32,
    header: Seq<u8>,
    initial: u64,
    target: Seq<u8>,
    b1: nat,
    b2: nat,
    r1: MineRusult,
    r2: MineRusult,
)
    requires
        b1 <= b2,
        is_mine_result(mining_request_id, header, initial, target, b1, r1),
        is_mine_result(mining_request_id, header, initial, target, b2, r2),
        r1.randomness is Some,
    ensures
        r1 == r2,
{
    let f1 = r1.randomness.unwrap();
    let i1 = solution_index(header, initial, target, b1, f1);
    assert(is_first_solution(header, initial, target, b1, i1));
    assert(is_first_solution(header, initial, target, b2, i1));
    assert(is_batch_outcome(header, initial, target, b2, r1.randomness));
    lemma_batch_outcome_unique(header, initial, target, b2, r1.randomness, r2.randomness);
}

/// A returned solution is a value of the batch counted upward from the start: the
/// start plus some `k` below the batch size, modulo `2^64`. Its header (the value as 8
/// little-endian bytes, then the header bytes) hashes to a digest that, read
/// little-endian, is at most the big-endian target.
pub proof fn lemma_found_value_counts_up(
    mining_request_id: u32,
    header: Seq<u8>,
    initial: u64,
    target: Seq<u8>,
    batch_size: nat,
    r: MineRusult,
) -> (k: int)
    requires
        is_mine_result(mining_request_id, header, initial, target, batch_size, r),
        r.randomness is Some,
    ensures
        0 <= k < batch_size,
        r.randomness == Some(((initial as int + k) % 0x1_0000_0000_0000_0000int) as u64),
        le_value(blake3_digest(spec_u64_to_le_bytes(r.randomness.unwrap()) + header)) <= be_value(target),
        r.mining_request_id == Some(mining_request_id),
{
    let f = r.randomness.unwrap();
    let k = solution_index(header, initial, target, batch_size, f);
    assert(is_first_solution(header, initial, target, batch_size, k));
    k
}

/// No solution inside the batch is missed: when the `k`-th value counted upward from the
/// start (modulo `2^64`) solves the header, a solution is returned, and it is the
/// `k2`-th value for some `k2 <= k`.
pub proof fn lemma_solving_value_is_not_missed(
    mining_request_id: u32,
    header: Seq<u8>,
    initial: u64,
    target: Seq<u8>,
    batch_size: nat,
    r: MineRusult,
    k: int,
) -> (k2: int)
    requires
        is_mine_result(mining_request_id, header, initial, target, batch_size, r),
        0 <= k < batch_size,
        le_value(blake3_digest(
            spec_u64_to_le_bytes(((initial as int + k) % 0x1_0000_0000_0000_0000int) as u64) + header,
        )) <= be_value(target),
    ensures
        0 <= k2 <= k,
        r.randomness == Some(((initial as int + k2) % 0x1_0000_0000_0000_0000int) as u64),
        r.mining_request_id == Some(mining_request_id),
{
    assert(solves(header, batch_randomness(initial, k), target));
    match r.randomness {
        Some(f) => {
            let i = solution_index(header, initial, target, batch_size, f);
            assert(is_first_solution(header, initial, target, batch_size, i));
            if i > k {
                assert(!solves(header, batch_randomness(initial, k), target));
            }
            i
        },
        None => {
            assert(!solves(header, batch_randomness(initial, k), target));
            0
        },
    }
}

/// Different positions of a batch of at most `2^64` values hold different values.
pub proof fn lemma_batch_randomness_injective(initial: u64, i: int, j: int)
    requires
        0 <= i < 0x1_0000_0000_0000_0000int,
        0 <= j < 0x1_0000_0000_0000_0000int,
        batch_randomness(initial, i) == batch_randomness(initial, j),
    ensures
        i == j,
{
    let m = 0x1_0000_0000_0000_0000int;
    let a = initial as int + i;
    let b = initial as int + j;
    if a >= m {
        assert(a % m == a - m) by {
            vstd::arithmetic::div_mod::lemma_fundamental_div_mod_converse(a, m, 1, a - m);
        }
    } else {
        assert(a % m == a) by {
            vstd::arithmetic::div_mod::lemma_small_mod(a as nat, m as nat);
        }
    }
    if b >= m {
        assert(b % m == b - m) by {
            vstd::arithmetic::div_mod::lemma_fundamental_div_mod_converse(b, m, 1, b - m);
        }
    } else {
        assert(b % m == b) by {
            vstd::arithmetic::div_mod::lemma_small_mod(b as nat, m as nat);
        }
    }
}

/// Raising the target never loses or delays a solution: when the `k1`-th value of the
/// batch is the solution for target `t1`, the solution for a target `t2` at least as
/// large is found at a position `k2 <= k1`.
pub proof fn lemma_mine_result_higher_target(
    mining_request_id: u32,
    header: Seq<u8>,
    initial: u64,
    t1: Seq<u8>,
    t2: Seq<u8>,
    batch_size: nat,
    r1: MineRusult,
    r2: MineRusult,
    k1: int,
)
    requires
        be_value(t1) <= be_value(t2),
        batch_size <= 0x1_0000_0000_0000_0000int,
        0 <= k1 < batch_size,
        is_mine_result(mining_request_id, header, initial, t1, batch_size, r1),
        is_mine_result(mining_request_id, header, initial, t2, batch_size, r2),
        r1.randomness == Some(batch_randomness(initial, k1)),
    ensures
        exists|k2: int| 0 <= k2 <= k1 && r2.randomness == Some(batch_randomness(initial, k2)),
{
    let f1 = batch_randomness(initial, k1);
    let i1 = solution_index(header, initial, t1, batch_size, f1);
    assert(is_first_solution(header, initial, t1, batch_size, i1));
    lemma_batch_randomness_injective(initial, i1, k1);
    assert(solves(header, batch_randomness(initial, k1), t2));
    match r2.randomness {
        Some(f2) => {
            let i2 = solution_index(header, initial, t2, batch_size, f2);
            assert(is_first_solution(header, initial, t2, batch_size, i2));
            if i2 > k1 {
                assert(!solves(header, batch_randomness(initial, k1), t2));
            }
            assert(0 <= i2 <= k1 && r2.randomness == Some(batch_randomness(initial, i2)));
        },
        None => {
            assert(!solves(header, batch_randomness(initial, k1), t2));
        },
    }
}

/// The largest target, `2^256 - 1` (32 bytes of `0xff`), is met by every value whose
/// digest has 32 bytes.
pub proof fn lemma_largest_target_solves(header: Seq<u8>, randomness: u64)
    requires
        blake3_digest(header_with_randomness(header, randomness)).len() == 32,
    ensures
        solves(header, randomness, Seq::new(32, |i: int| 0xffu8)),
{
    let d = blake3_digest(header_with_randomness(header, randomness));
    lemma_le_value_bound(d);
    lemma_be_value_all_ff(32);
}

/// With the largest target, the first value of a nonempty batch is the solution.
pub proof fn lemma_largest_target_met_first(
    mining_request_id: u32,
    header: Seq<u8>,
    initial: u64,
    batch_size: nat,
    r: MineRusult,
)
    requires
        batch_size > 0,
        is_mine_result(mining_request_id, header, initial, Seq::new(32, |i: int| 0xffu8), batch_size, r),
        tried_digests_have_32_bytes(header, initial, Seq::new(32, |i: int| 0xffu8), batch_size),
    ensures
        r.randomness == Some(initial),
        r.mining_request_id == Some(mining_request_id),
{
    let t = Seq::new(32, |i: int| 0xffu8);
    assert(blake3_digest(header_with_randomness(header, batch_randomness(initial, 0))).len() == 32);
    lemma_largest_target_solves(header, batch_randomness(initial, 0));
    assert(batch_randomness(initial, 0) == initial);
    assert(is_first_solution(header, initial, t, batch_size, 0));
    assert(is_batch_outcome(header, initial, t, batch_size, Some(initial)));
    lemma_batch_outcome_unique(header, initial, t, batch_size, r.randomness, Some(initial));
}

/// The hashed header gives back what went into it: its first 8 bytes read as a
/// little-endian `u64` are the randomness, and the rest is the header that was handed in.
pub proof fn lemma_header_with_randomness_roundtrip(header: Seq<u8>, randomness: u64)
    ensures
        header_with_randomness(header, randomness).len() == header.len() + RANDOMNESS_LEN,
        spec_u64_from_le_bytes(header_with_randomness(header, randomness).take(RANDOMNESS_LEN as int)) == randomness,
        header_with_randomness(header, randomness).skip(RANDOMNESS_LEN as int) == header,
{
    lemma_auto_spec_u64_to_from_le_bytes();
    let h = header_with_randomness(header, randomness);
    let le = spec_u64_to_le_bytes(randomness);
    assert(h.take(8) =~= le);
    assert(h.skip(8) =~= header);
}

} // verus!
