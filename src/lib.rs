//! Primitives of the Tendermint finality gadget: the authority-set change
//! signals carried in block digests, the policy that reconciles them into a
//! pending change, and the localized payload that votes are signed over.
use vstd::prelude::*;

pub mod consensus_log;
pub mod authority_set;
pub mod payload;
pub mod digest;

verus! {

/// Public key of an authority (an Ed25519 public key).
pub type AuthorityId = [u8; 32];

/// Signature of an authority (an Ed25519 signature).
pub type AuthoritySignature = [u8; 64];

/// The index of an authority.
pub type AuthorityIndex = u64;

/// The monotonic identifier of a set of authorities.
pub type SetId = u64;

/// The round indicator.
pub type RoundNumber = u64;

/// A block number; also used for distances counted in blocks.
pub type BlockNumber = u64;

/// Ordered list of authorities; the position of an authority is its index.
pub type AuthorityList = Vec<AuthorityId>;

/// The engine identifier of Tendermint's consensus logs: the bytes of `TMNT`.
pub const TMNT_ENGINE_ID: [u8; 4] = [84u8, 77u8, 78u8, 84u8];

/// The storage key for the current set of Tendermint authorities.
pub const TMNT_AUTHORITIES_KEY: &'static str = ":tendermint_authorities";

/// The key type of Tendermint authority keys: the bytes of `tmnt`.
pub const KEY_TYPE: [u8; 4] = [116u8, 109u8, 110u8, 116u8];

} // verus!
