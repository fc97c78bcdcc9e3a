//! Identity-registry behavior: bonding with a token, setting one, and the
//! transfer protocol with its ordered checks.

use staking_core::exposure::Support;
use staking_core::ledger::{StakingLedger, ValidatorPrefs};
use staking_core::perbill::Perbill;
use staking_core::staking::{Error, Staking};

fn cmix_id(b: u8) -> Option<u64> {
    Some(b as u64)
}

/// A state like the default test chain: three validators with identities, an
/// idle bonded account without one, and the first two validators active.
fn build_default() -> Staking {
    let mut s = Staking::new(3, Perbill::from_percent(0), 1);
    for (stash, controller, balance, amount, token, validates) in [
        (11u64, 10u64, 1000u64, 1000u64, cmix_id(11), true),
        (21, 20, 2000, 1000, cmix_id(21), true),
        (31, 30, 2000, 500, cmix_id(31), true),
        (41, 40, 2000, 1000, None, false),
    ] {
        s.set_balance(stash, balance);
        s.bond(stash, controller, amount, token).unwrap();
        if validates {
            s.validate(controller, ValidatorPrefs::default()).unwrap();
        }
    }
    s.set_session_validators(vec![11, 21]);
    s
}

#[test]
fn calling_bond_correctly_stores_cmix_id() {
    let stash_value = 100;
    let mut s = Staking::new(3, Perbill::from_percent(0), 1);
    s.set_balance(10, stash_value);

    // bond with cmix ID
    assert!(s.bond(10, 11, stash_value, cmix_id(10u8)).is_ok());

    // confirm cmix ID is correctly stored
    assert!(s.cmix_id_registered(cmix_id(10u8).unwrap()));
}

#[test]
fn calling_bond_with_existing_cmix_id_fails() {
    let stash_value = 100;
    let mut s = Staking::new(3, Perbill::from_percent(0), 1);
    s.set_balance(10, stash_value);
    s.set_balance(20, stash_value);

    // ok to bond the first time
    assert!(s.bond(10, 11, stash_value, cmix_id(10u8)).is_ok());
    // if different account tries to bond, fails with ValidatorCmixIdNotUnique
    assert_eq!(
        s.bond(20, 21, stash_value, cmix_id(10u8)),
        Err(Error::ValidatorCmixIdNotUnique)
    );
}

#[test]
fn calling_validate_from_stash_with_no_cmix_id_fails() {
    let stash_value = 100;
    let mut s = Staking::new(3, Perbill::from_percent(0), 1);
    s.set_balance(10, stash_value);

    // bond without cmix id
    assert!(s.bond(10, 11, stash_value, None).is_ok());
    // if account tries to validate, fails with ValidatorMustHaveCmixId
    assert_eq!(
        s.validate(11, ValidatorPrefs::default()),
        Err(Error::ValidatorMustHaveCmixId)
    );
}

#[test]
fn after_full_unbond_cmix_id_is_removed() {
    let stash_value = 100;
    let mut s = build_default();
    s.set_balance(10, stash_value);

    // bond with cmix ID
    assert!(s.bond(10, 11, stash_value, cmix_id(10u8)).is_ok());

    // confirm cmix ID is correctly stored
    assert!(s.cmix_id_registered(cmix_id(10u8).unwrap()));

    s.set_current_era(1);

    // unbond full amount
    assert!(s.unbond(11, stash_value).is_ok());

    // trigger future era
    s.set_current_era(5);

    // withdraw unbonded, which will kill stash
    assert!(s.withdraw_unbonded(11, 0).is_ok());

    // confirm cmix ID is correctly removed
    assert!(!s.cmix_id_registered(cmix_id(10u8).unwrap()));
}

#[test]
fn calling_set_cmix_id_correctly_stores_cmix_id() {
    let stash_value = 100;
    let mut s = Staking::new(3, Perbill::from_percent(0), 1);
    s.set_balance(10, stash_value);

    // Can't call function if not bonded
    assert_eq!(
        s.set_cmix_id(10, cmix_id(10u8).unwrap()),
        Err(Error::NotStash)
    );

    // Bond account without cmix id
    assert!(s.bond(10, 11, stash_value, None).is_ok());

    // Can't call function from controller
    assert_eq!(
        s.set_cmix_id(11, cmix_id(10u8).unwrap()),
        Err(Error::NotStash)
    );

    // Set cmix id
    assert!(s.set_cmix_id(10, cmix_id(10u8).unwrap()).is_ok());

    // confirm cmix ID is correctly stored
    assert!(s.cmix_id_registered(cmix_id(10u8).unwrap()));
}

#[test]
fn calling_set_cmix_id_stash_already_has_cmix_id_fails() {
    let stash_value = 100;
    let mut s = Staking::new(3, Perbill::from_percent(0), 1);
    s.set_balance(10, stash_value);

    // bond first validator with cmix id
    assert!(s.bond(10, 11, stash_value, cmix_id(10u8)).is_ok());

    // can't set cmix id, since it's already present
    assert_eq!(
        s.set_cmix_id(10, cmix_id(11u8).unwrap()),
        Err(Error::StashAlreadyHasCmixId)
    );
}

#[test]
fn calling_set_cmix_id_with_existing_cmix_id_fails() {
    let stash_value = 100;
    let mut s = Staking::new(3, Perbill::from_percent(0), 1);
    s.set_balance(10, stash_value);
    s.set_balance(20, stash_value);

    // bond first validator with cmix id
    assert!(s.bond(10, 11, stash_value, cmix_id(10u8)).is_ok());

    // bond second validator without
    assert!(s.bond(20, 21, stash_value, None).is_ok());

    // if second validator tries to set existing cmix id, fails with
    // ValidatorCmixIdNotUnique
    assert_eq!(
        s.set_cmix_id(20, cmix_id(10u8).unwrap()),
        Err(Error::ValidatorCmixIdNotUnique)
    );
}

#[test]
fn transfer_cmix_id_works() {
    let stash_value = 100;
    let mut s = build_default();
    s.set_balance(10, stash_value);
    s.set_balance(12, stash_value);

    // Bond account 10 with cmix id
    assert!(s.bond(10, 11, stash_value, cmix_id(10u8)).is_ok());
    // Bond account 12 without cmix id
    assert!(s.bond(12, 13, stash_value, None).is_ok());

    // Confirm cmix ids
    assert_eq!(
        s.ledger(11),
        Some(&StakingLedger {
            stash: 10,
            total: 100,
            active: 100,
            unlocking: vec![],
            claimed_rewards: vec![],
            cmix_id: cmix_id(10u8)
        })
    );
    assert_eq!(
        s.ledger(13),
        Some(&StakingLedger {
            stash: 12,
            total: 100,
            active: 100,
            unlocking: vec![],
            claimed_rewards: vec![],
            cmix_id: None
        })
    );

    // Execute cmix id transfer
    assert!(s.transfer_cmix_id(10, 12).is_ok());

    // Confirm cmix ID was correctly transferred
    assert_eq!(
        s.ledger(11),
        Some(&StakingLedger {
            stash: 10,
            total: 100,
            active: 100,
            unlocking: vec![],
            claimed_rewards: vec![],
            cmix_id: None
        })
    );
    assert_eq!(
        s.ledger(13),
        Some(&StakingLedger {
            stash: 12,
            total: 100,
            active: 100,
            unlocking: vec![],
            claimed_rewards: vec![],
            cmix_id: cmix_id(10u8)
        })
    );
}

#[test]
fn check_transfer_cmix_id_errors() {
    let mut s = build_default();

    // Calling from a non stash account fails
    assert_eq!(s.transfer_cmix_id(10, 41), Err(Error::NotStash));

    // Destination is not a stash account
    assert_eq!(s.transfer_cmix_id(11, 40), Err(Error::NotStash));

    // Origin stash has no cmix id
    assert_eq!(s.transfer_cmix_id(41, 11), Err(Error::StashNoCmixId));

    // Destination has cmix id
    assert_eq!(s.transfer_cmix_id(11, 21), Err(Error::StashAlreadyHasCmixId));

    // Origin is validating
    assert_eq!(s.transfer_cmix_id(11, 41), Err(Error::StashValidating));

    // Chill
    assert!(s.chill(10).is_ok());

    // Origin is active validator
    assert_eq!(s.transfer_cmix_id(11, 41), Err(Error::StashActiveValidator));
}

#[test]
fn check_transfer_cmix_id_election_ongoing() {
    let mut s = build_default();

    // The origin must pass the intent check first: stop validating.
    assert!(s.chill(10).is_ok());

    // Trigger the election
    s.set_election_ongoing(true);

    // Election is ongoing
    assert_eq!(s.transfer_cmix_id(11, 41), Err(Error::ElectionOngoing));
}

#[test]
fn check_transfer_cmix_id_elected_validator() {
    let mut s = build_default();

    // Bond extra coins to get validator 31 elected
    assert!(s.bond_extra(30, 1000).is_ok());

    // Election happened, next validators should be available
    s.store_exposures(
        1,
        &vec![
            Support {
                validator: 11,
                voters: vec![(11, 1000)],
            },
            Support {
                validator: 31,
                voters: vec![(31, 1500)],
            },
        ],
    );

    // Stop validating
    assert!(s.chill(30).is_ok());

    // Stash is elected validator
    assert_eq!(s.transfer_cmix_id(31, 41), Err(Error::StashElectedValidator));
}
