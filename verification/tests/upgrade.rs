//! The migration state machine: strict linear order, the version guard that
//! makes every `migrate` a cheap no-op off its expected version, and the
//! custody-field migration.

use staking_core::exposure::Support;
use staking_core::ledger::ValidatorPrefs;
use staking_core::migrations::{
    v6, v7, v7dot5, v8, Releases, MAX_BLOCK_WEIGHT, READ_WEIGHT, WRITE_WEIGHT,
};
use staking_core::perbill::Perbill;
use staking_core::staking::Staking;

fn old_chain() -> Staking {
    let mut s = Staking::new(3, Perbill::from_percent(0), 1);
    s.migration.version = Releases::V5_0_0;
    s.migration.snapshot_validators = true;
    s.migration.snapshot_nominators = true;
    s.migration.queued_elected = true;
    s.migration.queued_score = true;
    s.migration.era_election_status = true;
    s.migration.is_current_session_final = true;
    s.set_balance(11, 1000);
    s.bond(11, 10, 1000, Some(11)).unwrap();
    s.validate(10, ValidatorPrefs::default()).unwrap();
    s.set_balance(101, 500);
    s.bond(101, 100, 500, None).unwrap();
    s.nominate(100, vec![11]).unwrap();
    // the custody account's stake is in the snapshot
    s.add_custody_account(101);
    s.store_exposures(
        0,
        &vec![Support {
            validator: 11,
            voters: vec![(11, 1000), (101, 500)],
        }],
    );
    s
}

#[test]
fn migrations_run_in_order_and_advance_the_version() {
    let mut s = old_chain();

    assert!(v6::pre_migrate(&s).is_ok());
    let w6 = v6::migrate(&mut s);
    // seven writes: the six deleted items and the version cell
    assert_eq!(w6, 7 * WRITE_WEIGHT);
    assert_eq!(s.migration.version, Releases::V6_0_0);
    assert!(!s.migration.era_election_status);
    assert!(!s.migration.is_current_session_final);

    assert!(v7::pre_migrate(&s).is_ok());
    let w7 = v7::migrate(&mut s);
    // one validator and one nominator read, two counter cells written
    assert_eq!(w7, 2 * READ_WEIGHT + 2 * WRITE_WEIGHT);
    assert_eq!(s.migration.version, Releases::V7_0_0);
    // one validator intent, one nominator
    assert_eq!(s.migration.counter_for_validators, 1);
    assert_eq!(s.migration.counter_for_nominators, 1);

    assert!(v7dot5::pre_migrate(&s).is_ok());
    let w75 = v7dot5::migrate(&mut s);
    // one exposure translated, plus the version cell
    assert_eq!(w75, 2 * READ_WEIGHT + 2 * WRITE_WEIGHT);
    assert_eq!(s.migration.version, Releases::V7_5_0);
    assert!(v7dot5::post_migrate(&s).is_ok());

    assert!(v8::pre_migrate(&s).is_ok());
    let w8 = v8::migrate(&mut s);
    // a completed regeneration is charged a full block
    assert_eq!(w8, MAX_BLOCK_WEIGHT);
    assert_eq!(s.migration.version, Releases::V8_0_0);
    assert!(v8::post_migrate(&s).is_ok());
    assert_eq!(s.migration.sorted_list, vec![101]);
}

#[test]
fn migrate_off_version_is_a_cheap_noop() {
    let mut s = old_chain();
    // still at the oldest version: none of the later migrations may act
    let custody_before = s.era_exposure(0, 11).unwrap().custody;
    assert_eq!(v7::migrate(&mut s), READ_WEIGHT);
    assert_eq!(v7dot5::migrate(&mut s), READ_WEIGHT);
    assert_eq!(v8::migrate(&mut s), READ_WEIGHT);
    assert_eq!(s.migration.version, Releases::V5_0_0);
    assert_eq!(s.migration.counter_for_validators, 0);
    assert!(s.migration.sorted_list.is_empty());
    // ledger, exposure and identity data are untouched
    assert_eq!(s.era_exposure(0, 11).unwrap().custody, custody_before);
    assert_eq!(s.ledger(10).unwrap().cmix_id, Some(11));
    assert!(s.cmix_id_registered(11));

    // and once past its version, a migration never runs again
    v6::migrate(&mut s);
    v7::migrate(&mut s);
    assert_eq!(v6::migrate(&mut s), READ_WEIGHT);
    assert_eq!(s.migration.version, Releases::V7_0_0);
}

#[test]
fn custody_migration_zeroes_every_exposure() {
    let mut s = old_chain();
    v6::migrate(&mut s);
    v7::migrate(&mut s);

    // the pre-migration snapshot carries custody stake
    let before = s.era_exposure(0, 11).unwrap();
    assert_eq!(before.custody, 500);
    let own_before = before.own;
    let total_before = before.total;
    assert!(v7dot5::post_migrate(&s).is_err());

    v7dot5::migrate(&mut s);

    let after = s.era_exposure(0, 11).unwrap();
    assert_eq!(after.custody, 0);
    assert_eq!(after.own, own_before);
    assert_eq!(after.total, total_before);
    assert!(v7dot5::post_migrate(&s).is_ok());
}

#[test]
fn sorted_list_regeneration_is_checked() {
    let mut s = old_chain();
    v6::migrate(&mut s);
    v7::migrate(&mut s);
    v7dot5::migrate(&mut s);

    // a stale list fails the check until the migration regenerates it
    s.migration.sorted_list = vec![11, 22, 33];
    assert!(v8::post_migrate(&s).is_err());
    v8::migrate(&mut s);
    assert!(v8::post_migrate(&s).is_ok());
    assert_eq!(s.migration.sorted_list, vec![101]);
}
