use parity_scale_codec::Encode;
use sp_core::Pair;
use tendermint_primitives::payload::{
    check_message_signature, check_message_signature_with_buffer, localized_payload,
    localized_payload_with_buffer, signed_message,
};
use tendermint_primitives::{AuthorityId, AuthoritySignature};

fn keypair(seed: u8) -> sp_core::ed25519::Pair {
    sp_core::ed25519::Pair::from_seed(&[seed; 32])
}

fn public(p: &sp_core::ed25519::Pair) -> AuthorityId {
    p.public().0
}

fn sign(p: &sp_core::ed25519::Pair, message: &[u8], round: u64, set_id: u64) -> AuthoritySignature {
    p.sign(&localized_payload(round, set_id, message)).0
}

#[test]
fn payload_is_message_then_round_then_set_id() {
    let p = localized_payload(0x0102030405060708, 9, &[0xaa, 0xbb]);
    assert_eq!(p, vec![0xaa, 0xbb, 8, 7, 6, 5, 4, 3, 2, 1, 9, 0, 0, 0, 0, 0, 0, 0]);
}

#[test]
fn payload_matches_scale_encoding_of_the_tuple() {
    let message: Vec<u8> = vec![1, 2, 3];
    let encoded = message.encode();
    assert_eq!(localized_payload(77, 5, &encoded), (&message, 77u64, 5u64).encode());
}

#[test]
fn buffer_is_cleared_before_writing() {
    let mut buf = vec![9u8; 40];
    localized_payload_with_buffer(1, 2, &[3], &mut buf);
    assert_eq!(buf, localized_payload(1, 2, &[3]));
    assert_eq!(buf.len(), 17);
}

#[test]
fn signature_round_trips() {
    let k = keypair(7);
    let msg = vec![4u8, 5, 6];
    let sig = sign(&k, &msg, 3, 1);
    assert!(check_message_signature(&msg, &public(&k), &sig, 3, 1));
    let mut buf = vec![1u8, 2];
    assert!(check_message_signature_with_buffer(&msg, &public(&k), &sig, 3, 1, &mut buf));
    assert_eq!(buf, localized_payload(3, 1, &msg));
}

#[test]
fn changing_any_field_fails_the_check() {
    let k = keypair(7);
    let other = keypair(8);
    let msg = vec![4u8, 5, 6];
    let sig = sign(&k, &msg, 3, 1);
    let id = public(&k);
    assert!(!check_message_signature(&[4, 5, 7], &id, &sig, 3, 1));
    assert!(!check_message_signature(&msg, &id, &sig, 4, 1));
    assert!(!check_message_signature(&msg, &id, &sig, 3, 2));
    let mut bad = sig;
    bad[0] ^= 1;
    assert!(!check_message_signature(&msg, &id, &bad, 3, 1));
    assert!(!check_message_signature(&msg, &public(&other), &sig, 3, 1));
}

#[test]
fn signed_message_packages_signature() {
    let m = signed_message(vec![1, 2], [3; 32], Some([4; 64])).unwrap();
    assert_eq!(m.message, vec![1, 2]);
    assert_eq!(m.id, [3; 32]);
    assert_eq!(m.signature, [4; 64]);
    assert!(signed_message(vec![1, 2], [3; 32], None).is_none());
}
