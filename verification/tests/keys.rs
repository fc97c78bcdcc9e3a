//! W-OTS+ key material: hard-junction derivation and the key-rotation
//! extension.

use staking_core::kvstore::KvStore;
use staking_core::system::{AccountRecord, SetNextPk};
use staking_core::wots::{
    derive_hard_junction, derive_seed, DeriveError, DeriveJunction, Public, Seed, H256,
};

#[test]
fn hard_junction_derivation_hashes_both_halves() {
    let seed = Seed::default();
    let cc = [7u8; 32];
    let derived = derive_hard_junction(&seed, &cc);

    // a derived seed is again 64 bytes: two 32-byte digests
    assert_eq!(derived.0.len(), 64);
    // and the digests actually depend on the input
    assert_ne!(derived.0, seed.0);
    assert_ne!(derived.0[..32], derived.0[32..]);

    // derivation is a function of seed and chain code alone
    let again = derive_hard_junction(&Seed::default(), &cc);
    assert_eq!(derived.0, again.0);

    // a different chain code gives a different seed
    let other = derive_hard_junction(&seed, &[8u8; 32]);
    assert_ne!(derived.0, other.0);
}

#[test]
fn derive_path_folds_hard_junctions() {
    let seed = Seed::default();
    let cc1 = [1u8; 32];
    let cc2 = [2u8; 32];

    let step1 = derive_hard_junction(&seed, &cc1);
    let step2 = derive_hard_junction(&step1, &cc2);

    let walked = derive_seed(
        &seed,
        &vec![DeriveJunction::Hard(cc1), DeriveJunction::Hard(cc2)],
    )
    .unwrap();
    assert_eq!(walked.0, step2.0);

    // the empty path derives the seed itself
    let same = derive_seed(&seed, &vec![]).unwrap();
    assert_eq!(same.0, seed.0);
}

#[test]
fn soft_junctions_are_rejected() {
    let seed = Seed::default();
    let r = derive_seed(
        &seed,
        &vec![DeriveJunction::Hard([1u8; 32]), DeriveJunction::Soft([2u8; 32])],
    );
    assert_eq!(r.unwrap_err(), DeriveError::SoftKeyInPath);
}

#[test]
fn seed_material_must_be_64_bytes() {
    assert!(Seed::from_bytes(vec![5u8; 64]).is_some());
    assert!(Seed::from_bytes(vec![5u8; 63]).is_none());
    assert!(Seed::from_bytes(vec![]).is_none());
}

#[test]
fn public_key_constructors_agree() {
    let raw = [9u8; 32];
    let p = Public::from_raw(raw);
    assert_eq!(*p.as_array_ref(), raw);
    let q = Public::from_h256(H256(raw));
    assert_eq!(p, q);
}

#[test]
fn set_next_pk_rotates_the_stored_key() {
    let mut accounts: KvStore<AccountRecord> = KvStore::new();

    // a fresh account starts from an empty record
    let ext = SetNextPk::from(42);
    assert!(ext.pre_dispatch(7, &mut accounts).is_ok());
    let record = *accounts.get(7).unwrap();
    assert_eq!(record.curr_pk, 42);
    assert_eq!(record.nonce, 0);

    // rotating again keeps the rest of the record
    let ext = SetNextPk::from(43);
    assert!(ext.pre_dispatch(7, &mut accounts).is_ok());
    let record = *accounts.get(7).unwrap();
    assert_eq!(record.curr_pk, 43);
    assert_eq!(record.nonce, 0);
}
