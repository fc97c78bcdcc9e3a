//! Custody-account policy: custody stake helps elect but is never exposed,
//! and custody accounts cannot be slashed.

use staking_core::exposure::Support;
use staking_core::ledger::ValidatorPrefs;
use staking_core::perbill::Perbill;
use staking_core::staking::Staking;

fn cmix_id(b: u8) -> Option<u64> {
    Some(b as u64)
}

fn build_default() -> Staking {
    let mut s = Staking::new(3, Perbill::from_percent(0), 1);
    for (stash, controller, balance, amount, token, validates) in [
        (11u64, 10u64, 1000u64, 1000u64, cmix_id(11), true),
        (21, 20, 2000, 1000, cmix_id(21), true),
        (31, 30, 2000, 500, cmix_id(31), true),
        (41, 40, 2000, 1000, None, false),
    ] {
        s.set_balance(stash, balance);
        s.bond(stash, controller, amount, token).unwrap();
        if validates {
            s.validate(controller, ValidatorPrefs::default()).unwrap();
        }
    }
    s.set_session_validators(vec![11, 21]);
    s
}

#[test]
fn can_set_custody_accounts_in_builder() {
    let custody_account_id = 10;
    let mut s = Staking::new(3, Perbill::from_percent(0), 1);
    s.add_custody_account(custody_account_id);
    assert!(s.is_custody_account(custody_account_id));
    assert!(s.is_custody_account(custody_account_id + 1) == false);
}

#[test]
fn exposure_not_counted_for_custody_accounts() {
    let a = 101;

    let mut s = build_default();
    s.add_custody_account(a); // A is a custody account

    // Starts with 11 and 21 as validators, with nobody nominating
    s.store_exposures(
        0,
        &vec![
            Support {
                validator: 11,
                voters: vec![(11, 1000)],
            },
            Support {
                validator: 21,
                voters: vec![(21, 1000)],
            },
        ],
    );

    // No nominators, so all others exposure is empty
    assert!(s.era_exposure(0, 11).unwrap().others.is_empty());
    assert!(s.era_exposure(0, 21).unwrap().others.is_empty());

    // Custody account nominates 11 and 31
    s.set_balance(a, 2000);
    assert!(s.bond(101, 100, 2000, None).is_ok());
    assert!(s.nominate(100, vec![11, 31]).is_ok());

    // Start next era: the custody stake helped elect 31, and the election
    // observed the full raw stake behind both winners.
    s.store_exposures(
        1,
        &vec![
            Support {
                validator: 11,
                voters: vec![(11, 1000), (101, 500)],
            },
            Support {
                validator: 31,
                voters: vec![(31, 500), (101, 1500)],
            },
        ],
    );

    // However, custody stake is not exposed, but helped elect 31
    assert!(s.era_exposure(1, 11).unwrap().others.is_empty());
    assert!(s.era_exposure(1, 31).unwrap().others.is_empty());
    assert_eq!(s.era_exposure(1, 11).unwrap().custody, 500);
    assert_eq!(s.era_exposure(1, 31).unwrap().custody, 1500);
    // The reward-bearing total holds only the validators' own stake.
    assert_eq!(s.era_exposure(1, 31).unwrap().total, 500);
}

#[test]
fn custody_accounts_cannot_be_slashed() {
    let a = 11;
    let b = 21;
    let c = 101;

    let mut s = build_default();
    s.add_custody_account(c); // c is a custody account
    s.set_balance(c, 2000);

    assert_eq!(s.balance(a), 1000);
    assert_eq!(s.balance(b), 2000);
    assert_eq!(s.balance(c), 2000);

    // the nominator's stake sits behind validator a in this era's snapshot
    s.store_exposures(
        0,
        &vec![
            Support {
                validator: a,
                voters: vec![(a, 1000), (c, 490)],
            },
            Support {
                validator: b,
                voters: vec![(b, 1000)],
            },
        ],
    );

    let initial_balance = s.balance(c);

    s.apply_slash(0, a, Perbill::from_percent(10));
    s.apply_slash(0, b, Perbill::from_percent(10));

    assert_eq!(s.balance(c), initial_balance);
}

#[test]
fn non_custody_accounts_can_be_slashed() {
    let a = 11;
    let b = 21;
    let c = 101;

    let mut s = build_default();
    // no custody accounts
    s.set_balance(c, 2000);

    assert_eq!(s.balance(a), 1000);
    assert_eq!(s.balance(b), 2000);
    assert_eq!(s.balance(c), 2000);

    s.store_exposures(
        0,
        &vec![
            Support {
                validator: a,
                voters: vec![(a, 1000), (c, 490)],
            },
            Support {
                validator: b,
                voters: vec![(b, 1000)],
            },
        ],
    );

    s.apply_slash(0, a, Perbill::from_percent(10));
    s.apply_slash(0, b, Perbill::from_percent(10));

    // new slashed balance: ten percent of the 490 exposed behind a
    assert_eq!(s.balance(c), 1951);
}
