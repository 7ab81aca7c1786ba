use keep_it_real::address::proof_address;
use keep_it_real::lifecycle::mint_memory;
use keep_it_real::record::{ErrorCode, RealityProof, STORAGE_FEE};
use keep_it_real::registry::{
    revoke_memory, transfer_memory, MemoryMinted, MintMemory, Registry, RevokeMemory, TransferMemory, Wallet,
};
use keep_it_real::validate::{validate_proof_input, validate_cid, validate_drift};

const NOW: i64 = 1_700_000_000;
const DEPOSIT: u64 = 2_143_440;
const CID: &str = "bafybeigdyrzt5sfp7udm7hu76uh7y26nf3efuylqabf3oclgtqy55fbzdi";

fn program() -> [u8; 32] {
    [7u8; 32]
}

fn alice() -> [u8; 32] {
    [1u8; 32]
}

fn bob() -> [u8; 32] {
    [2u8; 32]
}

fn treasury() -> [u8; 32] {
    [9u8; 32]
}

fn h1() -> [u8; 32] {
    [0xAB; 32]
}

fn sig() -> [u8; 64] {
    [0x5A; 64]
}

fn mint_ctx(user: [u8; 32], lamports: u64) -> MintMemory {
    MintMemory {
        user: Wallet { key: user, lamports },
        dao_treasury: Wallet { key: treasury(), lamports: 0 },
        unix_timestamp: NOW,
        rent_deposit: DEPOSIT,
    }
}

fn address_of(owner: [u8; 32], hash: [u8; 32]) -> [u8; 32] {
    proof_address(&owner, &hash, &program()).expect("a program address exists")
}

fn mint(reg: &mut Registry, ctx: &mut MintMemory, cid: &str, ts: i64) -> Result<MemoryMinted, ErrorCode> {
    mint_memory(reg, ctx, h1(), cid.to_string(), sig(), ts)
}

fn assert_record(p: &RealityProof, owner: [u8; 32]) {
    assert_eq!(p.owner, owner);
    assert_eq!(p.image_hash, h1());
    assert_eq!(p.ipfs_cid, CID);
    assert_eq!(p.app_signature, sig());
    assert_eq!(p.timestamp, NOW);
    assert!(p.is_verified);
}

#[test]
fn mint_writes_record_and_charges_fee() {
    let mut reg = Registry::new(program());
    let mut ctx = mint_ctx(alice(), 10_000_000);
    let ev = mint(&mut reg, &mut ctx, CID, NOW).unwrap();
    assert_eq!(ev, MemoryMinted { owner: alice(), image_hash: h1(), timestamp: NOW });
    assert_eq!(ctx.user.lamports, 10_000_000 - STORAGE_FEE - DEPOSIT);
    assert_eq!(ctx.dao_treasury.lamports, STORAGE_FEE);
    assert_eq!(ctx.rent_deposit, DEPOSIT);
    assert_eq!(reg.len(), 1);
    let addr = address_of(alice(), h1());
    assert_record(reg.get(&addr).unwrap(), alice());
    assert_eq!(reg.deposit(&addr), Some(DEPOSIT));
}

#[test]
fn mint_past_drift_fails_without_effect() {
    let mut reg = Registry::new(program());
    let mut ctx = mint_ctx(alice(), 10_000_000);
    assert_eq!(mint(&mut reg, &mut ctx, CID, NOW - 601), Err(ErrorCode::TimeDriftTooLarge));
    assert_eq!(reg.len(), 0);
    assert_eq!(ctx.user.lamports, 10_000_000);
    assert_eq!(ctx.dao_treasury.lamports, 0);
}

#[test]
fn mint_twice_is_duplicate() {
    let mut reg = Registry::new(program());
    let mut ctx = mint_ctx(alice(), 10_000_000);
    assert!(mint(&mut reg, &mut ctx, CID, NOW).is_ok());
    assert_eq!(mint(&mut reg, &mut ctx, CID, NOW), Err(ErrorCode::DuplicateProof));
    assert_eq!(reg.len(), 1);
    assert_eq!(ctx.user.lamports, 10_000_000 - STORAGE_FEE - DEPOSIT);
    assert_record(reg.get(&address_of(alice(), h1())).unwrap(), alice());
}

#[test]
fn duplicate_comes_before_fee() {
    let mut reg = Registry::new(program());
    let mut ctx = mint_ctx(alice(), STORAGE_FEE + DEPOSIT);
    assert!(mint(&mut reg, &mut ctx, CID, NOW).is_ok());
    assert_eq!(ctx.user.lamports, 0);
    assert_eq!(mint(&mut reg, &mut ctx, CID, NOW), Err(ErrorCode::DuplicateProof));
}

#[test]
fn transfer_then_old_owner_unauthorized() {
    let mut reg = Registry::new(program());
    let mut ctx = mint_ctx(alice(), 10_000_000);
    mint(&mut reg, &mut ctx, CID, NOW).unwrap();
    let addr = address_of(alice(), h1());
    let t = TransferMemory { reality_proof: addr, user: alice() };
    assert_eq!(transfer_memory(&mut reg, &t, bob()), Ok(()));
    assert_record(reg.get(&addr).unwrap(), bob());
    assert_eq!(reg.deposit(&addr), Some(DEPOSIT));
    assert_eq!(transfer_memory(&mut reg, &t, alice()), Err(ErrorCode::Unauthorized));
    assert_record(reg.get(&addr).unwrap(), bob());
}

#[test]
fn revoke_refunds_and_frees_address() {
    let mut reg = Registry::new(program());
    let mut ctx = mint_ctx(alice(), 10_000_000);
    mint(&mut reg, &mut ctx, CID, NOW).unwrap();
    let addr = address_of(alice(), h1());
    transfer_memory(&mut reg, &TransferMemory { reality_proof: addr, user: alice() }, bob()).unwrap();
    let mut r = RevokeMemory { reality_proof: addr, user: Wallet { key: bob(), lamports: 5 } };
    assert_eq!(revoke_memory(&mut reg, &mut r), Ok(()));
    assert_eq!(r.user.lamports, 5 + DEPOSIT);
    assert_eq!(reg.len(), 0);
    assert!(reg.get(&addr).is_none());
    assert!(mint(&mut reg, &mut ctx, CID, NOW).is_ok());
    assert_record(reg.get(&addr).unwrap(), alice());
    assert_eq!(ctx.user.lamports, 10_000_000 - 2 * (STORAGE_FEE + DEPOSIT));
    assert_eq!(ctx.dao_treasury.lamports, 2 * STORAGE_FEE);
}

#[test]
fn revoke_by_stranger_is_unauthorized() {
    let mut reg = Registry::new(program());
    let mut ctx = mint_ctx(alice(), 10_000_000);
    mint(&mut reg, &mut ctx, CID, NOW).unwrap();
    let addr = address_of(alice(), h1());
    let mut r = RevokeMemory { reality_proof: addr, user: Wallet { key: bob(), lamports: 5 } };
    assert_eq!(revoke_memory(&mut reg, &mut r), Err(ErrorCode::Unauthorized));
    assert_eq!(r.user.lamports, 5);
    assert_eq!(reg.len(), 1);
}

#[test]
fn missing_proof_is_not_found() {
    let mut reg = Registry::new(program());
    let addr = address_of(alice(), h1());
    let t = TransferMemory { reality_proof: addr, user: alice() };
    assert_eq!(transfer_memory(&mut reg, &t, bob()), Err(ErrorCode::NotFound));
    let mut r = RevokeMemory { reality_proof: addr, user: Wallet { key: alice(), lamports: 0 } };
    assert_eq!(revoke_memory(&mut reg, &mut r), Err(ErrorCode::NotFound));
}

#[test]
fn poor_payer_fee_fails() {
    let mut reg = Registry::new(program());
    let mut ctx = mint_ctx(alice(), STORAGE_FEE - 1);
    assert_eq!(mint(&mut reg, &mut ctx, CID, NOW), Err(ErrorCode::FeePaymentFailed));
    assert_eq!(reg.len(), 0);
    assert_eq!(ctx.user.lamports, STORAGE_FEE - 1);
}

#[test]
fn full_treasury_fee_fails() {
    let mut reg = Registry::new(program());
    let mut ctx = mint_ctx(alice(), 10_000_000);
    ctx.dao_treasury.lamports = u64::MAX - STORAGE_FEE + 1;
    assert_eq!(mint(&mut reg, &mut ctx, CID, NOW), Err(ErrorCode::FeePaymentFailed));
    assert_eq!(ctx.user.lamports, 10_000_000);
}

#[test]
fn locator_length_bounds() {
    let long64 = "a".repeat(64);
    let long65 = "a".repeat(65);
    assert_eq!(validate_cid(""), Err(ErrorCode::InvalidCid));
    assert_eq!(validate_cid("a"), Ok(()));
    assert_eq!(validate_cid(&long64), Ok(()));
    assert_eq!(validate_cid(&long65), Err(ErrorCode::InvalidCid));
    // 32 two-byte characters are 64 bytes; 33 are too many.
    assert_eq!(validate_cid(&"é".repeat(32)), Ok(()));
    assert_eq!(validate_cid(&"é".repeat(33)), Err(ErrorCode::InvalidCid));
    let mut reg = Registry::new(program());
    let mut ctx = mint_ctx(alice(), 10_000_000);
    assert_eq!(mint(&mut reg, &mut ctx, "", NOW), Err(ErrorCode::InvalidCid));
    assert_eq!(mint(&mut reg, &mut ctx, &long65, NOW), Err(ErrorCode::InvalidCid));
    assert!(mint(&mut reg, &mut ctx, &long64, NOW).is_ok());
    let mut reg2 = Registry::new(program());
    assert!(mint(&mut reg2, &mut ctx, "a", NOW).is_ok());
}

#[test]
fn drift_boundaries() {
    assert_eq!(validate_drift(NOW + 600, NOW), Ok(()));
    assert_eq!(validate_drift(NOW - 600, NOW), Ok(()));
    assert_eq!(validate_drift(NOW + 601, NOW), Err(ErrorCode::TimeDriftTooLarge));
    assert_eq!(validate_drift(NOW - 601, NOW), Err(ErrorCode::TimeDriftTooLarge));
    assert_eq!(validate_drift(i64::MIN, i64::MAX), Err(ErrorCode::TimeDriftTooLarge));
    assert_eq!(validate_drift(i64::MAX, i64::MIN), Err(ErrorCode::TimeDriftTooLarge));
}

#[test]
fn locator_checked_before_drift() {
    assert_eq!(validate_proof_input("", NOW + 10_000, NOW), Err(ErrorCode::InvalidCid));
    assert_eq!(validate_proof_input(CID, NOW + 10_000, NOW), Err(ErrorCode::TimeDriftTooLarge));
    assert_eq!(validate_proof_input(CID, NOW, NOW), Ok(()));
}

#[test]
fn addresses_are_deterministic_and_distinct() {
    let a = address_of(alice(), h1());
    assert_eq!(a, address_of(alice(), h1()));
    assert_ne!(a, alice());
    assert_ne!(a, h1());
    assert_ne!(a, address_of(bob(), h1()));
    assert_ne!(a, address_of(alice(), [0xAC; 32]));
    assert_ne!(a, proof_address(&alice(), &h1(), &[8u8; 32]).unwrap());
}

#[test]
fn different_pairs_are_independent() {
    let mut reg = Registry::new(program());
    let mut a = mint_ctx(alice(), 10_000_000);
    let mut b = mint_ctx(bob(), 10_000_000);
    assert!(mint(&mut reg, &mut a, CID, NOW).is_ok());
    assert!(mint(&mut reg, &mut b, CID, NOW).is_ok());
    assert_eq!(reg.len(), 2);
    assert_record(reg.get(&address_of(bob(), h1())).unwrap(), bob());
}

#[test]
fn record_space_is_fixed() {
    assert_eq!(RealityProof::LEN, 213);
}

#[test]
fn payer_without_deposit_fee_fails() {
    let mut reg = Registry::new(program());
    let mut ctx = mint_ctx(alice(), STORAGE_FEE + DEPOSIT - 1);
    assert_eq!(mint(&mut reg, &mut ctx, CID, NOW), Err(ErrorCode::FeePaymentFailed));
    assert_eq!(reg.len(), 0);
    assert_eq!(ctx.user.lamports, STORAGE_FEE + DEPOSIT - 1);
    assert_eq!(ctx.dao_treasury.lamports, 0);
}

#[test]
fn mint_then_owner_revoke_costs_the_fee() {
    let mut reg = Registry::new(program());
    let mut ctx = mint_ctx(alice(), 1_000_000_000);
    mint(&mut reg, &mut ctx, CID, NOW).unwrap();
    assert_eq!(ctx.user.lamports, 1_000_000_000 - 2_000_000 - DEPOSIT);
    let addr = address_of(alice(), h1());
    let mut r = RevokeMemory { reality_proof: addr, user: ctx.user };
    assert_eq!(revoke_memory(&mut reg, &mut r), Ok(()));
    assert_eq!(r.user.lamports, 1_000_000_000 - 2_000_000);
    assert_eq!(ctx.dao_treasury.lamports, 2_000_000);
    assert_eq!(reg.len(), 0);
}
