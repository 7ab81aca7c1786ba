use vstd::prelude::*;
use crate::address::{proof_address, proof_address_of};
use crate::record::{ErrorCode, MAX_TIME_DRIFT};
use crate::registry::{
    fee_ok, fee_paid, minted_account, mint_outcome, owner_check, reowned, MemoryMinted, MintMemory,
    ProofAccount, Registry,
};
use crate::validate::{validate_proof_input, validation_of, cid_ok, drift_ok};

verus! {

/// The outcome of minting `(ctx.user.key, image_hash)` under `program`:
/// validation, then address derivation, then the checks at the address.
pub open spec fn mint_memory_outcome(
    store: Map<Seq<u8>, ProofAccount>,
    ctx: MintMemory,
    program: [u8; 32],
    image_hash: [u8; 32],
    ipfs_cid: Seq<char>,
    timestamp: i64,
) -> Result<(), ErrorCode> {
    if validation_of(ipfs_cid, timestamp, ctx.unix_timestamp) is Err {
        validation_of(ipfs_cid, timestamp, ctx.unix_timestamp)
    } else {
        match proof_address_of(ctx.user.key, image_hash, program) {
            None => Err(ErrorCode::AddressUnavailable),
            Some(a) => mint_outcome(store, ctx, a, ipfs_cid, timestamp),
        }
    }
}

/// Mints a proof for `(ctx.user.key, image_hash)`: validates the input,
/// derives the proof's address, and there writes the record, which holds the
/// storage deposit, and pays the preservation fee to the treasury; the user
/// pays both. It happens all or nothing.
pub fn mint_memory(
    registry: &mut Registry,
    ctx: &mut MintMemory,
    image_hash: [u8; 32],
    ipfs_cid: String,
    app_signature: [u8; 64],
    timestamp: i64,
) -> (r: Result<MemoryMinted, ErrorCode>)
    requires
        old(registry).wf(),
    ensures
        final(registry).wf(),
        final(registry).program() == old(registry).program(),
        (r is Ok) == (mint_memory_outcome(
            old(registry)@, *old(ctx), old(registry).program(), image_hash, ipfs_cid@, timestamp,
        ) is Ok),
        r matches Ok(ev) ==> {
            &&& final(registry)@ == old(registry)@.insert(
                proof_address_of(old(ctx).user.key, image_hash, old(registry).program())->Some_0,
                minted_account(*old(ctx), image_hash, ipfs_cid, app_signature, timestamp),
            )
            &&& *final(ctx) == fee_paid(*old(ctx))
            &&& ev == (MemoryMinted { owner: old(ctx).user.key, image_hash, timestamp })
        },
        r matches Err(e) ==> {
            &&& mint_memory_outcome(
                old(registry)@, *old(ctx), old(registry).program(), image_hash, ipfs_cid@, timestamp,
            ) == Err::<(), ErrorCode>(e)
            &&& final(registry)@ == old(registry)@
            &&& *final(ctx) == *old(ctx)
        },
{
    match validate_proof_input(ipfs_cid.as_str(), timestamp, ctx.unix_timestamp) {
        Ok(()) => {},
        Err(e) => {
            return Err(e);
        },
    }
    let program = registry.program_id();
    let address = match proof_address(&ctx.user.key, &image_hash, &program) {
        Some(a) => a,
        None => {
            return Err(ErrorCode::AddressUnavailable);
        },
    };
    registry.mint_at(ctx, address, image_hash, ipfs_cid, app_signature, timestamp)
}

/// Minting the same (owner, hash) pair a second time, at the same reference
/// time and with the same input, fails with `DuplicateProof`, whatever the
/// payer holds by then.
pub proof fn lemma_mint_twice_duplicate(
    store: Map<Seq<u8>, ProofAccount>,
    first: MintMemory,
    second: MintMemory,
    program: [u8; 32],
    image_hash: [u8; 32],
    ipfs_cid: String,
    app_signature: [u8; 64],
    timestamp: i64,
)
    requires
        mint_memory_outcome(store, first, program, image_hash, ipfs_cid@, timestamp) is Ok,
        second.user.key == first.user.key,
        second.unix_timestamp == first.unix_timestamp,
    ensures
        ({
            let address = proof_address_of(first.user.key, image_hash, program)->Some_0;
            let after = store.insert(address, minted_account(first, image_hash, ipfs_cid, app_signature, timestamp));
            mint_memory_outcome(after, second, program, image_hash, ipfs_cid@, timestamp)
                == Err::<(), ErrorCode>(ErrorCode::DuplicateProof)
        }),
{
}

/// Once the proof at an address is revoked, a mint for its (owner, hash)
/// pair succeeds whenever it would succeed on an empty store, and writes the
/// same record as such a fresh mint.
pub proof fn lemma_mint_after_revoke(
    store: Map<Seq<u8>, ProofAccount>,
    ctx: MintMemory,
    program: [u8; 32],
    image_hash: [u8; 32],
    ipfs_cid: Seq<char>,
    timestamp: i64,
)
    requires
        proof_address_of(ctx.user.key, image_hash, program) is Some,
    ensures
        ({
            let address = proof_address_of(ctx.user.key, image_hash, program)->Some_0;
            mint_memory_outcome(store.remove(address), ctx, program, image_hash, ipfs_cid, timestamp)
                == mint_memory_outcome(Map::empty(), ctx, program, image_hash, ipfs_cid, timestamp)
        }),
        (validation_of(ipfs_cid, timestamp, ctx.unix_timestamp) is Ok && fee_ok(ctx)) ==> ({
            let address = proof_address_of(ctx.user.key, image_hash, program)->Some_0;
            mint_memory_outcome(store.remove(address), ctx, program, image_hash, ipfs_cid, timestamp) is Ok
        }),
{
}

/// Validation passes exactly when the locator holds 1 to 64 bytes and the
/// claimed time lies at most 600 seconds from the reference time, either way.
pub proof fn lemma_validation_window(ipfs_cid: Seq<char>, timestamp: i64, now: i64)
    ensures
        validation_of(ipfs_cid, timestamp, now) is Ok <==> (cid_ok(ipfs_cid) && drift_ok(timestamp, now)),
        !cid_ok(ipfs_cid) ==> validation_of(ipfs_cid, timestamp, now) == Err::<(), ErrorCode>(ErrorCode::InvalidCid),
        cid_ok(ipfs_cid) && timestamp - now > MAX_TIME_DRIFT
            ==> validation_of(ipfs_cid, timestamp, now) == Err::<(), ErrorCode>(ErrorCode::TimeDriftTooLarge),
        cid_ok(ipfs_cid) && now - timestamp > MAX_TIME_DRIFT
            ==> validation_of(ipfs_cid, timestamp, now) == Err::<(), ErrorCode>(ErrorCode::TimeDriftTooLarge),
{
}

/// Minting at an address that holds no proof: a locator that is empty or over
/// 64 bytes fails with `InvalidCid`, else a claimed time more than 600 seconds
/// from the reference clock fails with `TimeDriftTooLarge`, whatever the
/// payer holds; with both in bounds and the fee and deposit payable, the mint
/// succeeds.
pub proof fn lemma_mint_validation(
    store: Map<Seq<u8>, ProofAccount>,
    ctx: MintMemory,
    program: [u8; 32],
    image_hash: [u8; 32],
    ipfs_cid: Seq<char>,
    timestamp: i64,
)
    requires
        proof_address_of(ctx.user.key, image_hash, program) is Some,
        !store.contains_key(proof_address_of(ctx.user.key, image_hash, program)->Some_0),
    ensures
        !cid_ok(ipfs_cid) ==> mint_memory_outcome(store, ctx, program, image_hash, ipfs_cid, timestamp)
            == Err::<(), ErrorCode>(ErrorCode::InvalidCid),
        cid_ok(ipfs_cid) && !drift_ok(timestamp, ctx.unix_timestamp) ==> mint_memory_outcome(
            store, ctx, program, image_hash, ipfs_cid, timestamp,
        ) == Err::<(), ErrorCode>(ErrorCode::TimeDriftTooLarge),
        cid_ok(ipfs_cid) && drift_ok(timestamp, ctx.unix_timestamp) && fee_ok(ctx) ==> mint_memory_outcome(
            store, ctx, program, image_hash, ipfs_cid, timestamp,
        ) is Ok,
        drift_ok(timestamp, ctx.unix_timestamp) <==> -MAX_TIME_DRIFT <= timestamp - ctx.unix_timestamp <= MAX_TIME_DRIFT,
{
}

/// After the owner transfers a proof to `new_owner`, the new owner may
/// transfer or revoke it and the former owner may not; revoking it then frees
/// the address, so a mint there succeeds whenever a fresh one would.
pub proof fn lemma_transfer_then_revoke(
    store: Map<Seq<u8>, ProofAccount>,
    address: Seq<u8>,
    new_owner: [u8; 32],
    ctx: MintMemory,
    program: [u8; 32],
    image_hash: [u8; 32],
    ipfs_cid: Seq<char>,
    timestamp: i64,
)
    requires
        store.contains_key(address),
        store[address].data.owner@ != new_owner@,
        proof_address_of(ctx.user.key, image_hash, program) == Some(address),
    ensures
        ({
            let moved = store.insert(address, reowned(store[address], new_owner));
            &&& owner_check(moved, address, new_owner) is Ok
            &&& owner_check(moved, address, store[address].data.owner) == Err::<(), ErrorCode>(ErrorCode::Unauthorized)
            &&& mint_memory_outcome(moved.remove(address), ctx, program, image_hash, ipfs_cid, timestamp)
                == mint_memory_outcome(Map::empty(), ctx, program, image_hash, ipfs_cid, timestamp)
        }),
{
    let moved = store.insert(address, reowned(store[address], new_owner));
    assert(moved.remove(address) =~= store.remove(address));
}

/// A successful mint takes the fee and the storage deposit from the payer;
/// revoking the record returns the deposit, so the payer who mints and then
/// revokes is down by exactly the fee, and the treasury keeps it.
pub proof fn lemma_mint_revoke_costs_fee(
    ctx: MintMemory,
    image_hash: [u8; 32],
    ipfs_cid: String,
    app_signature: [u8; 64],
    timestamp: i64,
)
    requires
        fee_ok(ctx),
    ensures
        fee_paid(ctx).user.lamports + minted_account(ctx, image_hash, ipfs_cid, app_signature, timestamp).lamports
            == ctx.user.lamports - crate::record::STORAGE_FEE,
        fee_paid(ctx).dao_treasury.lamports == ctx.dao_treasury.lamports + crate::record::STORAGE_FEE,
{
}

} // verus!
