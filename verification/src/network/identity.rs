use vstd::prelude::*;
use vstd::utf8::{encode_utf8, is_ascii_chars, is_ascii_chars_encode_utf8};

verus! {

/// Length in bytes of a public key of the peer network's box scheme.
pub const BOX_PUBLIC_KEY_LEN: usize = 32;

/// The character that stands for a 6-bit value in the standard base64 alphabet.
pub open spec fn base64_char(v: int) -> char {
    if v < 26 {
        ('A' as int + v) as char
    } else if v < 52 {
        ('a' as int + (v - 26)) as char
    } else if v < 62 {
        ('0' as int + (v - 52)) as char
    } else if v == 62 {
        '+'
    } else {
        '/'
    }
}

/// Standard base64 with `=` padding: each group of three bytes becomes four characters,
/// and a final group of one or two bytes is padded to four characters.
pub open spec fn base64_standard(bytes: Seq<u8>) -> Seq<char>
    decreases bytes.len(),
{
    if bytes.len() == 0 {
        seq![]
    } else if bytes.len() == 1 {
        let b0 = bytes[0] as int;
        seq![base64_char(b0 / 4), base64_char((b0 % 4) * 16), '=', '=']
    } else if bytes.len() == 2 {
        let b0 = bytes[0] as int;
        let b1 = bytes[1] as int;
        seq![base64_char(b0 / 4), base64_char((b0 % 4) * 16 + b1 / 16), base64_char((b1 % 16) * 4), '=']
    } else {
        let b0 = bytes[0] as int;
        let b1 = bytes[1] as int;
        let b2 = bytes[2] as int;
        seq![
            base64_char(b0 / 4),
            base64_char((b0 % 4) * 16 + b1 / 16),
            base64_char((b1 % 16) * 4 + b2 / 64),
            base64_char(b2 % 64),
        ] + base64_standard(bytes.subrange(3, bytes.len() as int))
    }
}

/// Padded base64 output has four characters for every started group of three bytes, all
/// of them ASCII.
pub proof fn lemma_base64_standard_shape(bytes: Seq<u8>)
    ensures
        base64_standard(bytes).len() == 4 * ((bytes.len() + 2) / 3),
        is_ascii_chars(base64_standard(bytes)),
    decreases bytes.len(),
{
    if bytes.len() >= 3 {
        lemma_base64_standard_shape(bytes.subrange(3, bytes.len() as int));
    }
    let s = base64_standard(bytes);
    assert forall|i: int| 0 <= i < s.len() implies '\0' <= #[trigger] s[i] <= '\u{7f}' by {
        if bytes.len() >= 3 && i >= 4 {
            let rest = base64_standard(bytes.subrange(3, bytes.len() as int));
            assert(s[i] == rest[i - 4]);
        }
    }
}

/// `base64::encode`: the standard, padded base64 encoding of the bytes. It panics only
/// where the length of the output overflows `usize`.
#[verifier::external_body]
fn base64_encode(bytes: &[u8]) -> (s: String)
    requires
        4 * ((bytes@.len() + 2) / 3) <= usize::MAX,
    ensures
        s@ == base64_standard(bytes@),
{
    base64::encode(bytes)
}

/// A 32-byte public key that identifies a peer on the network.
pub struct Identity {
    pub public_key: [u8; 32],
}

impl Identity {
    /// Whether this peer opens the WebRTC connection to `dest`: when its key is longer.
    /// Keys are all 32 bytes long, so never.
    pub fn can_init_webrtc(&self, dest: &Identity) -> (b: bool)
        ensures
            b == (self.public_key@.len() > dest.public_key@.len()),
            b == false,
    {
        self.public_key.len() > dest.public_key.len()
    }

    /// Whether a duplicate connection to `dest` is kept: as for `can_init_webrtc`.
    pub fn can_keep_dupticate_conn(&self, dest: &Identity) -> (b: bool)
        ensures
            b == (self.public_key@.len() > dest.public_key@.len()),
            b == false,
    {
        self.can_init_webrtc(dest)
    }

    /// Whether the base64 form of the key is as long as a key. A 32-byte key encodes to
    /// 44 characters, so never.
    pub fn is_valid(&self) -> (b: bool)
        ensures
            b == (base64_standard(self.public_key@).len() == BOX_PUBLIC_KEY_LEN),
            b == false,
    {
        let b64 = base64_encode(&self.public_key);
        proof {
            lemma_base64_standard_shape(self.public_key@);
            is_ascii_chars_encode_utf8(b64@);
        }
        let n = b64.as_str().len();
        assert(n == encode_utf8(b64@).len());
        n == BOX_PUBLIC_KEY_LEN
    }
}

/// A peer's full identity: its public key and its secret key.
pub struct PrivateIdentity {
    pub public_key: [u8; 32],
    pub secret_key: [u8; 32],
}

impl PrivateIdentity {
    /// The public part of the identity.
    pub fn to_identity(&self) -> (id: Identity)
        ensures
            id.public_key == self.public_key,
    {
        Identity { public_key: self.public_key }
    }
}

} // verus!
