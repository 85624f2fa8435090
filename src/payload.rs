//! The localized payload that a vote is signed over, and the check of an
//! authority's signature on it.
use vstd::prelude::*;

use crate::{AuthorityId, AuthoritySignature, RoundNumber, SetId};

verus! {

/// The eight little-endian bytes of `x`.
pub open spec fn le_bytes(x: u64) -> Seq<u8> {
    Seq::new(8, |i: int| (x >> ((8 * i) as u64)) as u8)
}

/// The bytes signed for `message` (its canonical encoding) in round `round`
/// of set `set_id`: the message, then the round, then the set id.
pub open spec fn payload_of(message: Seq<u8>, round: RoundNumber, set_id: SetId) -> Seq<u8> {
    message + le_bytes(round) + le_bytes(set_id)
}

/// Whether `signature` is a valid Ed25519 signature of `message` by the key
/// `public`.
pub uninterp spec fn ed25519_valid(public: Seq<u8>, message: Seq<u8>, signature: Seq<u8>) -> bool;

/// Relies on sp_core's `ed25519::Pair::verify`: its answer depends on the key,
/// the message and the signature alone.
#[verifier::external_body]
fn ed25519_verify(public: &AuthorityId, message: &Vec<u8>, signature: &AuthoritySignature) -> (r:
    bool)
    ensures
        r == ed25519_valid(public@, message@, signature@),
{
    <sp_core::ed25519::Pair as sp_core::Pair>::verify(
        &sp_core::ed25519::Signature::from_raw(*signature),
        message.as_slice(),
        &sp_core::ed25519::Public::from_raw(*public),
    )
}

fn push_le_bytes(buf: &mut Vec<u8>, x: u64)
    ensures
        final(buf)@ == old(buf)@ + le_bytes(x),
{
    let mut k: u64 = 0;
    while k < 8
        invariant
            k <= 8,
            buf@ == old(buf)@ + le_bytes(x).subrange(0, k as int),
        decreases 8 - k,
    {
        buf.push((x >> (8 * k)) as u8);
        k = k + 1;
        assert(buf@ =~= old(buf)@ + le_bytes(x).subrange(0, k as int));
    }
    assert(le_bytes(x).subrange(0, 8) =~= le_bytes(x));
}

/// Encodes `message` localized to the given round and set id into `buf`. The
/// buffer is cleared first, so the payload always starts at its first byte.
pub fn localized_payload_with_buffer(
    round: RoundNumber,
    set_id: SetId,
    message: &[u8],
    buf: &mut Vec<u8>,
)
    ensures
        final(buf)@ == payload_of(message@, round, set_id),
{
    buf.clear();
    let mut i: usize = 0;
    while i < message.len()
        invariant
            i <= message.len(),
            buf@ == message@.subrange(0, i as int),
        decreases message.len() - i,
    {
        buf.push(message[i]);
        i = i + 1;
        assert(buf@ =~= message@.subrange(0, i as int));
    }
    assert(message@.subrange(0, message.len() as int) =~= message@);
    push_le_bytes(buf, round);
    push_le_bytes(buf, set_id);
}

/// Encodes `message` localized to the given round and set id.
pub fn localized_payload(round: RoundNumber, set_id: SetId, message: &[u8]) -> (r: Vec<u8>)
    ensures
        r@ == payload_of(message@, round, set_id),
{
    let mut buf = Vec::new();
    localized_payload_with_buffer(round, set_id, message, &mut buf);
    buf
}

/// Checks `signature` by `id` on `message` localized to the given round and
/// set id, encoding the payload into `buf`, whose earlier content is cleared.
pub fn check_message_signature_with_buffer(
    message: &[u8],
    id: &AuthorityId,
    signature: &AuthoritySignature,
    round: RoundNumber,
    set_id: SetId,
    buf: &mut Vec<u8>,
) -> (valid: bool)
    ensures
        final(buf)@ == payload_of(message@, round, set_id),
        valid == ed25519_valid(id@, payload_of(message@, round, set_id), signature@),
{
    localized_payload_with_buffer(round, set_id, message, buf);
    ed25519_verify(id, buf, signature)
}

/// Checks `signature` by `id` on `message` localized to the given round and
/// set id.
pub fn check_message_signature(
    message: &[u8],
    id: &AuthorityId,
    signature: &AuthoritySignature,
    round: RoundNumber,
    set_id: SetId,
) -> (valid: bool)
    ensures
        valid == ed25519_valid(id@, payload_of(message@, round, set_id), signature@),
{
    let mut buf = Vec::new();
    check_message_signature_with_buffer(message, id, signature, round, set_id, &mut buf)
}

/// A message with the signature of the authority `id` on its localized
/// payload.
pub struct SignedMessage {
    /// The canonical encoding of the message.
    pub message: Vec<u8>,
    pub signature: AuthoritySignature,
    pub id: AuthorityId,
}

/// Packages `message` with the signature that the signer of `id` produced
/// over its localized payload; nothing when the signer produced none.
pub fn signed_message(message: Vec<u8>, id: AuthorityId, signature: Option<AuthoritySignature>) -> (r:
    Option<SignedMessage>)
    ensures
        match signature {
            Some(s) => r matches Some(m) && m.message@ == message@ && m.signature == s && m.id
                == id,
            None => r is None,
        },
{
    match signature {
        Some(signature) => Some(SignedMessage { message, signature, id }),
        None => None,
    }
}

proof fn lemma_le_bytes_injective(x: u64, y: u64)
    requires
        le_bytes(x) == le_bytes(y),
    ensures
        x == y,
{
    assert(le_bytes(x)[0] == le_bytes(y)[0]);
    assert(le_bytes(x)[0] == (x >> 0u64) as u8 && le_bytes(y)[0] == (y >> 0u64) as u8);
    assert(le_bytes(x)[1] == le_bytes(y)[1]);
    assert(le_bytes(x)[1] == (x >> 8u64) as u8 && le_bytes(y)[1] == (y >> 8u64) as u8);
    assert(le_bytes(x)[2] == le_bytes(y)[2]);
    assert(le_bytes(x)[2] == (x >> 16u64) as u8 && le_bytes(y)[2] == (y >> 16u64) as u8);
    assert(le_bytes(x)[3] == le_bytes(y)[3]);
    assert(le_bytes(x)[3] == (x >> 24u64) as u8 && le_bytes(y)[3] == (y >> 24u64) as u8);
    assert(le_bytes(x)[4] == le_bytes(y)[4]);
    assert(le_bytes(x)[4] == (x >> 32u64) as u8 && le_bytes(y)[4] == (y >> 32u64) as u8);
    assert(le_bytes(x)[5] == le_bytes(y)[5]);
    assert(le_bytes(x)[5] == (x >> 40u64) as u8 && le_bytes(y)[5] == (y >> 40u64) as u8);
    assert(le_bytes(x)[6] == le_bytes(y)[6]);
    assert(le_bytes(x)[6] == (x >> 48u64) as u8 && le_bytes(y)[6] == (y >> 48u64) as u8);
    assert(le_bytes(x)[7] == le_bytes(y)[7]);
    assert(le_bytes(x)[7] == (x >> 56u64) as u8 && le_bytes(y)[7] == (y >> 56u64) as u8);
    assert(x == y) by (bit_vector)
        requires
            (x >> 0u64) as u8 == (y >> 0u64) as u8,
            (x >> 8u64) as u8 == (y >> 8u64) as u8,
            (x >> 16u64) as u8 == (y >> 16u64) as u8,
            (x >> 24u64) as u8 == (y >> 24u64) as u8,
            (x >> 32u64) as u8 == (y >> 32u64) as u8,
            (x >> 40u64) as u8 == (y >> 40u64) as u8,
            (x >> 48u64) as u8 == (y >> 48u64) as u8,
            (x >> 56u64) as u8 == (y >> 56u64) as u8,
    ;
}

/// The localized payload binds all three of its inputs: two payloads are
/// equal only when message, round and set id all are, so a signature made for
/// one round, set or message is checked against different bytes in any other.
pub proof fn lemma_payload_binds(
    m1: Seq<u8>,
    r1: RoundNumber,
    s1: SetId,
    m2: Seq<u8>,
    r2: RoundNumber,
    s2: SetId,
)
    requires
        payload_of(m1, r1, s1) == payload_of(m2, r2, s2),
    ensures
        m1 == m2,
        r1 == r2,
        s1 == s2,
{
    let p = payload_of(m1, r1, s1);
    let n = m1.len() as int;
    assert(le_bytes(r1).len() == 8 && le_bytes(r2).len() == 8);
    assert(le_bytes(s1).len() == 8 && le_bytes(s2).len() == 8);
    assert(p.len() == n + 16);
    assert(m2.len() == n);
    assert(p.subrange(0, n) =~= m1);
    assert(payload_of(m2, r2, s2).subrange(0, n) =~= m2);
    assert(p.subrange(n, n + 8) =~= le_bytes(r1));
    assert(payload_of(m2, r2, s2).subrange(n, n + 8) =~= le_bytes(r2));
    assert(p.subrange(n + 8, n + 16) =~= le_bytes(s1));
    assert(payload_of(m2, r2, s2).subrange(n + 8, n + 16) =~= le_bytes(s2));
    lemma_le_bytes_injective(r1, r2);
    lemma_le_bytes_injective(s1, s2);
}

} // verus!
