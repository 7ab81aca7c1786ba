use vstd::prelude::*;
use vstd::utf8::encode_utf8;
use crate::record::{ErrorCode, MAX_CID_LEN, MAX_TIME_DRIFT};

verus! {

/// The locator is non-empty and at most 64 bytes long in UTF-8.
pub open spec fn cid_ok(cid: Seq<char>) -> bool {
    1 <= encode_utf8(cid).len() <= MAX_CID_LEN
}

/// `|timestamp - now| <= 600`, computed without overflow.
pub open spec fn drift_ok(timestamp: i64, now: i64) -> bool {
    -MAX_TIME_DRIFT <= timestamp - now <= MAX_TIME_DRIFT
}

/// What validation of inbound proof data gives: the locator is checked first.
pub open spec fn validation_of(cid: Seq<char>, timestamp: i64, now: i64) -> Result<(), ErrorCode> {
    if !cid_ok(cid) {
        Err(ErrorCode::InvalidCid)
    } else if !drift_ok(timestamp, now) {
        Err(ErrorCode::TimeDriftTooLarge)
    } else {
        Ok(())
    }
}

/// Checks a storage locator's byte length.
pub fn validate_cid(ipfs_cid: &str) -> (r: Result<(), ErrorCode>)
    ensures
        r == (if cid_ok(ipfs_cid@) { Ok(()) } else { Err(ErrorCode::InvalidCid) }),
{
    let n: usize = ipfs_cid.as_bytes().len();
    if n >= 1 && n <= MAX_CID_LEN {
        Ok(())
    } else {
        Err(ErrorCode::InvalidCid)
    }
}

/// Checks that a claimed timestamp lies within 600 seconds of `now`.
pub fn validate_drift(timestamp: i64, now: i64) -> (r: Result<(), ErrorCode>)
    ensures
        r == (if drift_ok(timestamp, now) { Ok(()) } else { Err(ErrorCode::TimeDriftTooLarge) }),
{
    let drift: i128 = timestamp as i128 - now as i128;
    if -(MAX_TIME_DRIFT as i128) <= drift && drift <= MAX_TIME_DRIFT as i128 {
        Ok(())
    } else {
        Err(ErrorCode::TimeDriftTooLarge)
    }
}

/// Validates inbound proof data against the reference time `now`. It has no
/// side effect.
pub fn validate_proof_input(ipfs_cid: &str, timestamp: i64, now: i64) -> (r: Result<(), ErrorCode>)
    ensures
        r == validation_of(ipfs_cid@, timestamp, now),
{
    match validate_cid(ipfs_cid) {
        Ok(()) => validate_drift(timestamp, now),
        Err(e) => Err(e),
    }
}

} // verus!
