use vstd::prelude::*;

verus! {

/// Preservation fee, in lamports, charged to the minting party on every mint.
pub const STORAGE_FEE: u64 = 2_000_000;

/// Largest accepted storage locator, in bytes.
pub const MAX_CID_LEN: usize = 64;

/// Largest accepted distance, in seconds, between a claimed capture time and
/// the reference clock.
pub const MAX_TIME_DRIFT: i64 = 600;

/// The failures that a registry operation can end in.
#[derive(Clone, Copy, Debug, PartialEq, Eq, Structural)]
pub enum ErrorCode {
    /// The storage locator is empty or longer than 64 bytes.
    InvalidCid,
    /// The claimed timestamp is more than 600 seconds away from the reference clock.
    TimeDriftTooLarge,
    /// A live proof already exists for this (owner, content hash) pair.
    DuplicateProof,
    /// The payer cannot pay the preservation fee, or the treasury cannot take it.
    FeePaymentFailed,
    /// The caller is not the current owner of the proof.
    Unauthorized,
    /// No live proof exists at the given address.
    NotFound,
    /// No valid program address exists for this (owner, content hash) pair.
    AddressUnavailable,
}

/// One proof of authenticity.
pub struct RealityProof {
    pub owner: [u8; 32],
    pub image_hash: [u8; 32],
    pub ipfs_cid: String,
    pub app_signature: [u8; 64],
    pub timestamp: i64,
    pub is_verified: bool,
}

impl RealityProof {
    /// Bytes reserved for one record: an 8-byte type header, then owner (32),
    /// image hash (32), locator (4-byte length prefix and 64 bytes), signature
    /// (64), timestamp (8) and the verified flag (1).
    pub const LEN: usize = 8 + 32 + 32 + 4 + 64 + 64 + 8 + 1;
}

} // verus!
