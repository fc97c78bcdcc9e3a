//! Error paths of the staking operations, one input per error variant, and
//! the idempotence of payout.

use staking_core::exposure::Support;
use staking_core::ledger::{UnlockChunk, ValidatorPrefs};
use staking_core::perbill::Perbill;
use staking_core::staking::{Error, Staking};

fn bonded_state() -> Staking {
    let mut s = Staking::new(3, Perbill::from_percent(0), 1);
    s.set_balance(11, 1000);
    s.bond(11, 10, 1000, Some(11)).unwrap();
    s.validate(10, ValidatorPrefs::default()).unwrap();
    s
}

#[test]
fn bonding_twice_fails() {
    let mut s = bonded_state();
    assert_eq!(s.bond(11, 12, 500, None), Err(Error::AlreadyBonded));
}

#[test]
fn reusing_a_controller_fails() {
    let mut s = bonded_state();
    s.set_balance(12, 500);
    assert_eq!(s.bond(12, 10, 500, None), Err(Error::AlreadyPaired));
}

#[test]
fn ledger_operations_need_a_controller() {
    let mut s = bonded_state();
    assert_eq!(s.bond_extra(99, 10), Err(Error::NotController));
    assert_eq!(s.unbond(99, 10), Err(Error::NotController));
    assert_eq!(s.withdraw_unbonded(99, 0), Err(Error::NotController));
    assert_eq!(
        s.validate(99, ValidatorPrefs::default()),
        Err(Error::NotController)
    );
    assert_eq!(s.chill(99), Err(Error::NotController));
    assert_eq!(s.nominate(99, vec![11]), Err(Error::NotController));
}

#[test]
fn payout_needs_a_known_era_and_stash() {
    let mut s = bonded_state();
    // no record for era 9 at all
    assert_eq!(s.payout_stakers(9, 11), Err(Error::InvalidEraToReward));
    // a record without a recorded payout is just as invalid
    s.reward_by_ids(&vec![(11, 5)]);
    assert_eq!(s.payout_stakers(0, 11), Err(Error::InvalidEraToReward));
    // with a payout recorded, an unbonded stash is refused
    s.set_era_payout(0, 1000);
    assert_eq!(s.payout_stakers(0, 77), Err(Error::NotStash));
}

#[test]
fn payout_applies_only_once() {
    let mut s = bonded_state();
    s.store_exposures(
        0,
        &vec![Support {
            validator: 11,
            voters: vec![(11, 1000)],
        }],
    );
    s.reward_by_ids(&vec![(11, 10)]);
    s.set_current_era(1);
    s.set_era_payout(0, 5000);

    let before = s.balance(11);
    assert!(s.payout_stakers(0, 11).is_ok());
    let after_first = s.balance(11);
    assert_eq!(after_first, before + 5000);

    // the second call is rejected, not silently repeated
    assert_eq!(s.payout_stakers(0, 11), Err(Error::AlreadyClaimed));
    assert_eq!(s.balance(11), after_first);
}

#[test]
fn unbond_is_capped_and_merges_chunks() {
    let mut s = bonded_state();
    s.set_current_era(2);
    assert!(s.unbond(10, 300).is_ok());
    assert!(s.unbond(10, 9999).is_ok());
    let l = s.ledger(10).unwrap();
    // the second request was capped at the remaining active stake and merged
    // into the chunk of the same unlock era
    assert_eq!(l.active, 0);
    assert_eq!(l.total, 1000);
    assert_eq!(l.unlocking, vec![UnlockChunk { value: 1000, era: 5 }]);
}

#[test]
fn withdraw_keeps_immature_chunks() {
    let mut s = bonded_state();
    assert!(s.unbond(10, 300).is_ok());
    // bonding duration is 3, so nothing matured at era 1
    s.set_current_era(1);
    assert!(s.withdraw_unbonded(10, 0).is_ok());
    let l = s.ledger(10).unwrap();
    assert_eq!(l.total, 1000);
    assert_eq!(l.active, 700);
    assert_eq!(l.unlocking, vec![UnlockChunk { value: 300, era: 3 }]);

    // once matured, the chunk is gone and the total shrinks
    s.set_current_era(3);
    assert!(s.withdraw_unbonded(10, 0).is_ok());
    let l = s.ledger(10).unwrap();
    assert_eq!(l.total, 700);
    assert_eq!(l.active, 700);
    assert!(l.unlocking.is_empty());
}

#[test]
fn bond_extra_raises_active_stake() {
    let mut s = bonded_state();
    assert!(s.bond_extra(10, 250).is_ok());
    let l = s.ledger(10).unwrap();
    assert_eq!(l.total, 1250);
    assert_eq!(l.active, 1250);
    assert_eq!(l.cmix_id, Some(11));
}
