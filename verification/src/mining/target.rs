use vstd::prelude::*;
use vstd::arithmetic::power::*;
use vstd::arithmetic::mul::*;
use crate::decimal::{decimal_value, is_decimal_digit};

verus! {

/// Value of a byte string read as an unsigned integer, least significant byte first.
pub open spec fn le_value(bytes: Seq<u8>) -> nat
    decreases bytes.len(),
{
    if bytes.len() == 0 {
        0
    } else {
        bytes[0] as nat + 256 * le_value(bytes.drop_first())
    }
}

/// Value of a byte string read as an unsigned integer, most significant byte first.
pub open spec fn be_value(bytes: Seq<u8>) -> nat
    decreases bytes.len(),
{
    if bytes.len() == 0 {
        0
    } else {
        (bytes[0] as nat) * (pow(256, (bytes.len() - 1) as nat) as nat) + be_value(bytes.drop_first())
    }
}

/// The exclusive upper bound of 256-bit unsigned integers.
pub open spec fn u256_bound() -> nat {
    pow(256, 32) as nat
}

/// A big-endian byte string of length `n` stands for a value below `256^n`.
pub proof fn lemma_be_value_bound(bytes: Seq<u8>)
    ensures
        be_value(bytes) < pow(256, bytes.len()),
    decreases bytes.len(),
{
    let n = bytes.len();
    if n == 0 {
        reveal(pow);
    } else {
        let rest = bytes.drop_first();
        lemma_be_value_bound(rest);
        lemma_pow_positive(256, (n - 1) as nat);
        let p = pow(256, (n - 1) as nat);
        assert(bytes[0] as int * p <= 255 * p) by {
            lemma_mul_inequality(bytes[0] as int, 255, p);
        }
        assert(pow(256, n) == 256 * p) by {
            reveal(pow);
        }
    }
}

/// A little-endian byte string of length `n` stands for a value below `256^n`.
pub proof fn lemma_le_value_bound(bytes: Seq<u8>)
    ensures
        le_value(bytes) < pow(256, bytes.len()),
    decreases bytes.len(),
{
    let n = bytes.len();
    if n == 0 {
        reveal(pow);
    } else {
        let rest = bytes.drop_first();
        lemma_le_value_bound(rest);
        let p = pow(256, (n - 1) as nat);
        assert(256 * le_value(rest) <= 256 * (p - 1)) by {
            lemma_mul_inequality(le_value(rest) as int, p - 1, 256);
        }
        assert(pow(256, n) == 256 * p) by {
            reveal(pow);
        }
    }
}

/// `n` bytes of `0xff` read big-endian stand for `256^n - 1`.
pub proof fn lemma_be_value_all_ff(n: nat)
    ensures
        be_value(Seq::new(n, |i: int| 0xffu8)) == pow(256, n) - 1,
    decreases n,
{
    let s = Seq::new(n, |i: int| 0xffu8);
    if n == 0 {
        reveal(pow);
    } else {
        let rest = Seq::new((n - 1) as nat, |i: int| 0xffu8);
        assert(s.drop_first() =~= rest);
        lemma_be_value_all_ff((n - 1) as nat);
        lemma_pow_positive(256, (n - 1) as nat);
        assert(pow(256, n) == 256 * pow(256, (n - 1) as nat)) by {
            reveal(pow);
        }
    }
}

/// The leading byte of a big-endian byte string weighs at least its value times `256^(n-1)`.
pub proof fn lemma_be_value_leading(bytes: Seq<u8>)
    requires
        bytes.len() > 0,
    ensures
        be_value(bytes) >= (bytes[0] as nat) * (pow(256, (bytes.len() - 1) as nat) as nat),
{
}

/// Zero bytes in front of a big-endian byte string do not change its value.
pub proof fn lemma_be_value_zero_prefix(zeros: Seq<u8>, bytes: Seq<u8>)
    requires
        forall|i: int| 0 <= i < zeros.len() ==> zeros[i] == 0,
    ensures
        be_value(zeros + bytes) == be_value(bytes),
    decreases zeros.len(),
{
    if zeros.len() > 0 {
        let s = zeros + bytes;
        assert(s.drop_first() =~= zeros.drop_first() + bytes);
        lemma_be_value_zero_prefix(zeros.drop_first(), bytes);
        assert(s[0] == 0);
    } else {
        assert(zeros + bytes =~= bytes);
    }
}

/// `Uint256::from_le_bytes(le) <= Uint256::from_be_bytes(be)` from num256: both 32-byte
/// arrays are read as 256-bit unsigned integers (little-endian and big-endian) and the
/// results are compared numerically by the derived `Ord` of `Uint256`.
#[verifier::external_body]
fn uint256_le_bytes_at_most_be_bytes(le: &[u8; 32], be: &[u8; 32]) -> (r: bool)
    ensures
        r == (le_value(le@) <= be_value(be@)),
{
    num256::Uint256::from_le_bytes(le) <= num256::Uint256::from_be_bytes(be)
}

/// Whether a 32-byte block hash, read as a little-endian 256-bit integer, is at most
/// the target, read as a big-endian 256-bit integer.
pub fn hash_meets_target(hash: &[u8; 32], target: &[u8; 32]) -> (r: bool)
    ensures
        r == (le_value(hash@) <= be_value(target@)),
{
    uint256_le_bytes_at_most_be_bytes(hash, target)
}

/// The number that num-bigint reads from a decimal string: one optional leading `+`
/// (not followed by a second `+`), then a nonempty run of digits and `_` separators that
/// does not start with `_`. `None` for any other string.
pub open spec fn unsigned_decimal(s: Seq<char>) -> Option<nat> {
    let body = if s.len() > 0 && s[0] == '+' && !(s.len() > 1 && s[1] == '+') {
        s.drop_first()
    } else {
        s
    };
    if body.len() > 0 && body[0] != '_' && (forall|i: int|
        0 <= i < body.len() ==> is_decimal_digit(#[trigger] body[i]) || body[i] == '_') {
        Some(decimal_value(body))
    } else {
        None
    }
}

/// `str::parse::<num_bigint::BigUint>` followed by `BigUint::to_bytes_be`: the decimal
/// number in `s` as its shortest big-endian byte string (`[0]` for zero), or `None` where
/// num-bigint refuses the string.
#[verifier::external_body]
fn parse_decimal_to_be_bytes(s: &str) -> (r: Option<Vec<u8>>)
    ensures
        r is None <==> unsigned_decimal(s@) is None,
        r matches Some(b) ==> {
            &&& unsigned_decimal(s@) == Some(be_value(b@))
            &&& b@.len() >= 1
            &&& b@.len() > 1 ==> b@[0] != 0
        },
{
    match s.parse::<num_bigint::BigUint>() {
        Ok(n) => Some(n.to_bytes_be()),
        Err(_) => None,
    }
}

/// Why a job's target string does not give a 256-bit target.
#[derive(Debug, Clone, Copy, PartialEq, Eq, Structural)]
pub enum TargetError {
    /// The string is not a decimal number.
    NotANumber,
    /// The number is `2^256` or more.
    TooLarge,
}

/// The 32-byte big-endian target for a decimal target string: the number is read by
/// num-bigint, refused when it does not fit in 256 bits, and right-aligned in 32 bytes.
pub fn target_from_decimal(target: &str) -> (r: Result<[u8; 32], TargetError>)
    ensures
        r matches Ok(t) ==> unsigned_decimal(target@) == Some(be_value(t@)),
        r matches Ok(t) ==> be_value(t@) < u256_bound(),
        r == Err::<[u8; 32], TargetError>(TargetError::NotANumber) <==> unsigned_decimal(target@) is None,
        r == Err::<[u8; 32], TargetError>(TargetError::TooLarge) <==> (unsigned_decimal(target@) is Some
            && unsigned_decimal(target@).unwrap() >= u256_bound()),
{
    let tbytes = match parse_decimal_to_be_bytes(target) {
        Some(b) => b,
        None => return Err(TargetError::NotANumber),
    };
    let len = tbytes.len();
    if len > 32 {
        proof {
            lemma_be_value_leading(tbytes@);
            lemma_pow_increases(256, 32, (len - 1) as nat);
            lemma_pow_positive(256, (len - 1) as nat);
            let p = pow(256, (len - 1) as nat);
            lemma_mul_inequality(1, tbytes@[0] as int, p);
            assert(tbytes@[0] != 0);
            assert(be_value(tbytes@) >= p);
            assert(p >= pow(256, 32));
            lemma_pow_positive(256, 32);
            assert(unsigned_decimal(target@) == Some(be_value(tbytes@)));
        }
        return Err(TargetError::TooLarge);
    }
    let istart = 32 - len;
    let mut t = [0u8; 32];
    let mut k: usize = 0;
    while k < len
        invariant
            len == tbytes@.len(),
            len <= 32,
            istart == 32 - len,
            k <= len,
            forall|i: int| 0 <= i < istart ==> t@[i] == 0,
            forall|i: int| 0 <= i < k ==> t@[istart + i] == tbytes@[i],
        decreases len - k,
    {
        t[istart + k] = tbytes[k];
        k = k + 1;
    }
    proof {
        let zeros = t@.take(istart as int);
        assert(t@ =~= zeros + tbytes@);
        lemma_be_value_zero_prefix(zeros, tbytes@);
        lemma_be_value_bound(tbytes@);
        lemma_pow_increases(256, len as nat, 32);
    }
    Ok(t)
}

} // verus!
