use vstd::prelude::*;
use vstd::utf8::{decode_utf8, encode_utf8, valid_utf8};
use crate::network::identity::{Identity, PrivateIdentity};

verus! {

/// Why a message could not be boxed or unboxed.
#[derive(Debug, Clone, Copy, PartialEq, Eq, Structural)]
pub enum EncryptionError {
    BoxingFailed,
    UnboxingFailed,
}

/// The ciphertext that sodalite's `box_` writes for a padded message, nonce, recipient's
/// public key and sender's secret key.
pub uninterp spec fn nacl_box(message: Seq<u8>, nonce: Seq<u8>, public_key: Seq<u8>, secret_key: Seq<u8>) -> Seq<u8>;

/// What sodalite's `box_open` recovers from a ciphertext, or `None` where the
/// authenticator does not verify.
pub uninterp spec fn nacl_box_open(cipher: Seq<u8>, nonce: Seq<u8>, public_key: Seq<u8>, secret_key: Seq<u8>) -> Option<Seq<u8>>;

/// `sodalite::box_`. Its source asserts that the message starts with 32 zero bytes and
/// that the ciphertext buffer is as long as the message (it panics otherwise), writes the
/// ciphertext and always returns `Ok`.
#[verifier::external_body]
fn sodalite_box(c: &mut Vec<u8>, m: &[u8], n: &[u8; 24], pk: &[u8; 32], sk: &[u8; 32]) -> (r: Result<(), ()>)
    requires
        m@.len() >= 32,
        forall|i: int| 0 <= i < 32 ==> m@[i] == 0,
        old(c)@.len() == m@.len(),
    ensures
        r is Ok,
        final(c)@ == nacl_box(m@, n@, pk@, sk@),
{
    sodalite::box_(&mut c[..], m, n, pk, sk)
}

/// `sodalite::box_open`. Its source asserts that the ciphertext starts with 16 zero bytes
/// and that the message buffer is as long as the ciphertext (it panics otherwise). It
/// fails for ciphertexts shorter than 32 bytes or that do not authenticate, leaving the
/// buffer as it was, and otherwise writes the recovered message.
#[verifier::external_body]
fn sodalite_box_open(m: &mut Vec<u8>, c: &[u8], n: &[u8; 24], pk: &[u8; 32], sk: &[u8; 32]) -> (r: Result<(), ()>)
    requires
        c@.len() >= 16,
        forall|i: int| 0 <= i < 16 ==> c@[i] == 0,
        old(m)@.len() == c@.len(),
    ensures
        c@.len() < 32 ==> r is Err,
        r is Ok <==> nacl_box_open(c@, n@, pk@, sk@) is Some,
        r is Ok ==> final(m)@ == nacl_box_open(c@, n@, pk@, sk@).unwrap(),
        r is Err ==> final(m)@ == old(m)@,
{
    sodalite::box_open(&mut m[..], c, n, pk, sk)
}

/// `String::from_utf8`, with its error dropped: the string that valid UTF-8 bytes encode.
#[verifier::external_body]
fn string_from_utf8(bytes: Vec<u8>) -> (r: Option<String>)
    ensures
        r is Some <==> valid_utf8(bytes@),
        r matches Some(s) ==> s@ == decode_utf8(bytes@),
{
    String::from_utf8(bytes).ok()
}

/// The all-zero nonce that boxing uses.
pub open spec fn zero_nonce() -> Seq<u8> {
    Seq::new(24, |i: int| 0u8)
}

/// Boxes a message for `recipient` with the zero nonce into a one-byte ciphertext buffer.
/// The box scheme needs a message that starts with 32 zero bytes and a buffer as long as
/// the message, so no message can be boxed into that buffer.
pub fn box_message(plain_msg: &String, sender: &PrivateIdentity, recipient: &Identity) -> (r: Result<String, EncryptionError>)
    requires
        encode_utf8(plain_msg@).len() >= 32,
        forall|i: int| 0 <= i < 32 ==> encode_utf8(plain_msg@)[i] == 0,
        encode_utf8(plain_msg@).len() == 1,
    ensures
        r matches Ok(s) ==> s@ == decode_utf8(
            nacl_box(encode_utf8(plain_msg@), zero_nonce(), recipient.public_key@, sender.secret_key@),
        ),
{
    let nbox: [u8; 24] = [0u8; 24];
    assert(nbox@ =~= zero_nonce());
    let mut cipher_text: Vec<u8> = vec![0u8];
    match sodalite_box(&mut cipher_text, plain_msg.as_str().as_bytes(), &nbox, &recipient.public_key, &sender.secret_key) {
        Err(_e) => return Err(EncryptionError::BoxingFailed),
        Ok(_s) => (),
    };
    Ok(string_from_utf8(cipher_text).unwrap())
}

/// Opens a boxed message from `sender` with the given nonce into a one-byte message
/// buffer. The box scheme needs a ciphertext that starts with 16 zero bytes and a buffer
/// as long as the ciphertext, so no ciphertext can be opened into that buffer.
pub fn unbox_message(boxed_msg: &String, nonce: &[u8; 24], sender: &Identity, recipient: &PrivateIdentity) -> (r: Result<String, EncryptionError>)
    requires
        encode_utf8(boxed_msg@).len() >= 16,
        forall|i: int| 0 <= i < 16 ==> encode_utf8(boxed_msg@)[i] == 0,
        encode_utf8(boxed_msg@).len() == 1,
    ensures
        r is Err ==> r == Err::<String, EncryptionError>(EncryptionError::UnboxingFailed),
{
    let mut cipher_text: Vec<u8> = vec![0u8];
    match sodalite_box_open(&mut cipher_text, boxed_msg.as_str().as_bytes(), nonce, &sender.public_key, &recipient.secret_key) {
        Err(_e) => return Err(EncryptionError::UnboxingFailed),
        Ok(_s) => (),
    }
    Ok(string_from_utf8(cipher_text).unwrap())
}

} // verus!
