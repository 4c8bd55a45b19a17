use ironfish_miner::network::identity::{Identity, PrivateIdentity};

#[test]
fn peers_never_open_webrtc_by_key_length() {
    let a = Identity { public_key: [1u8; 32] };
    let b = Identity { public_key: [2u8; 32] };
    assert!(!a.can_init_webrtc(&b));
    assert!(!b.can_init_webrtc(&a));
    assert!(!a.can_keep_dupticate_conn(&b));
}

#[test]
fn base64_key_is_never_key_length() {
    let a = Identity { public_key: [0u8; 32] };
    assert!(!a.is_valid());
    let b = Identity { public_key: [0xab; 32] };
    assert!(!b.is_valid());
}

#[test]
fn private_identity_gives_its_public_key() {
    let p = PrivateIdentity { public_key: [3u8; 32], secret_key: [4u8; 32] };
    assert_eq!(p.to_identity().public_key, [3u8; 32]);
}
