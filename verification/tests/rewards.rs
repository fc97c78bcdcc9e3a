//! Reward points and payout behavior: the bonus point on first touch, the
//! deduction floor, proportional payout to stashes, and the reward-pool
//! handler.

use staking_core::exposure::Support;
use staking_core::ledger::ValidatorPrefs;
use staking_core::perbill::Perbill;
use staking_core::staking::Staking;

fn cmix_id(b: u8) -> Option<u64> {
    Some(b as u64)
}

fn build_default() -> Staking {
    let mut s = Staking::new(3, Perbill::from_percent(0), 1);
    for (stash, controller, balance, amount, token, validates) in [
        (11u64, 10u64, 1000u64, 1000u64, cmix_id(11), true),
        (21, 20, 2000, 1000, cmix_id(21), true),
        (31, 30, 2000, 500, cmix_id(31), true),
        (41, 40, 2000, 1000, None, false),
    ] {
        s.set_balance(stash, balance);
        s.bond(stash, controller, amount, token).unwrap();
        if validates {
            s.validate(controller, ValidatorPrefs::default()).unwrap();
        }
    }
    s.set_session_validators(vec![11, 21]);
    s
}

/// The exposures the default election computes with nominator 101 voting a
/// quarter of its 500 for the first validator and the rest for the second.
fn default_supports() -> Vec<Support> {
    vec![
        Support {
            validator: 11,
            voters: vec![(11, 1000), (101, 125)],
        },
        Support {
            validator: 21,
            voters: vec![(21, 1000), (101, 375)],
        },
    ]
}

#[test]
fn rewards_paid_to_stash() {
    let mut s = build_default();
    // The nominator backs both validators.
    s.set_balance(101, 500);
    s.set_balance(10, 50);
    s.set_balance(20, 50);
    s.set_balance(100, 50);
    s.bond(101, 100, 500, None).unwrap();
    s.nominate(100, vec![11, 21]).unwrap();

    let init_a_stash = s.balance(11);
    let init_a_ctrl = s.balance(10);
    let init_b_stash = s.balance(21);
    let init_b_ctrl = s.balance(20);
    let init_n_stash = s.balance(101);
    let init_n_ctrl = s.balance(100);

    // exposures for era 0, as the election computed them
    s.store_exposures(0, &default_supports());

    // set some reward points for validators
    // they all get a bonus 1 for being initialized
    s.reward_by_ids(&vec![(11, 80)]);
    s.reward_by_ids(&vec![(21, 20)]);

    let a_points = 80 + 1;
    let b_points = 20 + 1;

    assert_eq!(s.points_total(0), a_points + b_points);
    assert_eq!(s.points_of(0, 11), a_points);
    assert_eq!(s.points_of(0, 21), b_points);

    let total_payout_0: u64 = 10_000;

    // advance to the next era and record the payout for the previous one
    s.set_current_era(1);
    s.set_era_payout(0, total_payout_0);

    // compute how much of the total era reward is allocated to each validator
    let a_part = Perbill::from_rational(a_points as u64, (a_points + b_points) as u64);
    let b_part = Perbill::from_rational(b_points as u64, (a_points + b_points) as u64);
    let a_total = a_part.mul_balance(total_payout_0);
    let b_total = b_part.mul_balance(total_payout_0);

    // Calculate how each validator's share of the total reward is allocated
    // between itself and its nominator
    // (the vote allocation from the nominator is: 1/4 to A, 3/4 to B)
    let n_vote_to_a = 500 / 4;
    let n_vote_to_b = 500 * 3 / 4;

    let a_rewards = Perbill::from_rational(1000, 1000 + n_vote_to_a).mul_balance(a_total);
    let b_rewards = Perbill::from_rational(1000, 1000 + n_vote_to_b).mul_balance(b_total);
    let n_rewards = Perbill::from_rational(n_vote_to_a, 1000 + n_vote_to_a).mul_balance(a_total)
        + Perbill::from_rational(n_vote_to_b, 1000 + n_vote_to_b).mul_balance(b_total);

    assert!(s.payout_stakers(0, 11).is_ok());
    assert!(s.payout_stakers(0, 21).is_ok());

    // Rewards paid to stash accounts
    assert_eq!(s.balance(11), init_a_stash + a_rewards);
    assert_eq!(s.balance(21), init_b_stash + b_rewards);
    assert_eq!(s.balance(101), init_n_stash + n_rewards);

    // Controller accounts remain the same
    assert_eq!(s.balance(10), init_a_ctrl);
    assert_eq!(s.balance(20), init_b_ctrl);
    assert_eq!(s.balance(100), init_n_ctrl);

    // second era: identical rewards are paid out again if the same reward
    // points are used
    s.store_exposures(1, &default_supports());
    s.reward_by_ids(&vec![(11, 80)]);
    s.reward_by_ids(&vec![(21, 20)]);
    s.set_current_era(2);
    s.set_era_payout(1, total_payout_0);

    assert!(s.payout_stakers(1, 11).is_ok());
    assert!(s.payout_stakers(1, 21).is_ok());

    assert_eq!(s.balance(11), init_a_stash + a_rewards + a_rewards);
    assert_eq!(s.balance(21), init_b_stash + b_rewards + b_rewards);
    assert_eq!(s.balance(101), init_n_stash + n_rewards + n_rewards);
}

#[test]
fn commission_is_paid_before_the_split() {
    let mut s = Staking::new(3, Perbill::from_percent(0), 1);
    s.set_balance(11, 1000);
    s.bond(11, 10, 1000, Some(11)).unwrap();
    s.validate(
        10,
        ValidatorPrefs {
            commission: Perbill::from_percent(20),
            blocked: false,
        },
    )
    .unwrap();
    s.set_balance(101, 1000);
    s.bond(101, 100, 1000, None).unwrap();
    s.nominate(100, vec![11]).unwrap();

    // the nominator matches the validator's own stake, so the leftover is
    // split evenly
    s.store_exposures(
        0,
        &vec![Support {
            validator: 11,
            voters: vec![(11, 1000), (101, 1000)],
        }],
    );
    s.reward_by_ids(&vec![(11, 9)]);
    s.set_current_era(1);
    s.set_era_payout(0, 1000);

    assert!(s.payout_stakers(0, 11).is_ok());

    // of the 1000: 200 commission to the validator, the remaining 800 split
    // half and half by exposure
    assert_eq!(s.balance(11), 1000 + 200 + 400);
    assert_eq!(s.balance(101), 1000 + 400);
}

#[test]
fn can_set_block_points_in_builder() {
    let points = 7;
    let s = Staking::new(3, Perbill::from_percent(0), points);
    assert_eq!(s.get_block_points(), points);
}

#[test]
fn block_author_earns_the_configured_points() {
    let mut s = Staking::new(3, Perbill::from_percent(0), 7);
    s.set_balance(11, 1000);
    s.bond(11, 10, 1000, Some(11)).unwrap();
    s.note_block_author(11);
    // bonus point on first touch, then the block points
    assert_eq!(s.points_of(0, 11), 1 + 7);
    s.note_block_author(11);
    assert_eq!(s.points_of(0, 11), 1 + 7 + 7);
    assert_eq!(s.points_total(0), 15);
}

#[test]
fn validators_are_always_initialized_with_one_point() {
    let a = 11;
    let mut s = build_default();
    // assigned 0 points a few times
    s.reward_by_ids(&vec![(a, 0), (a, 0)]);
    // results in 1 point from the first initialization
    assert_eq!(s.points_total(0), 1);
    assert_eq!(s.points_of(0, a), 1);
}

#[test]
fn can_deduct_points() {
    let a = 11;
    let b = 21;
    let mut s = build_default();
    // add points first
    s.reward_by_ids(&vec![(a, 5), (b, 7)]);
    assert_eq!(s.points_total(0), 14);
    assert_eq!(s.points_of(0, a), 5 + 1);
    assert_eq!(s.points_of(0, b), 7 + 1);

    // deduct some from each
    s.deduct_by_ids(&vec![(a, 2), (b, 3)]);
    assert_eq!(s.points_total(0), 9);
    assert_eq!(s.points_of(0, a), 3 + 1);
    assert_eq!(s.points_of(0, b), 4 + 1);
}

#[test]
fn cannot_deduct_below_one() {
    let a = 11;
    let mut s = build_default();
    // add points first
    s.reward_by_ids(&vec![(a, 5)]);
    assert_eq!(s.points_total(0), 6);
    assert_eq!(s.points_of(0, a), 6);

    // deduct more points than a has
    s.deduct_by_ids(&vec![(a, 10)]);
    // it keeps one
    assert_eq!(s.points_total(0), 1);
    assert_eq!(s.points_of(0, a), 1);
}

#[test]
fn reward_handler_called_on_do_payout_stakers() {
    let mut s = build_default();
    let init_11 = s.balance(11);

    s.store_exposures(0, &default_supports());

    // give 11 some points
    s.reward_by_ids(&vec![(11, 80)]);

    let total_payout_0: u64 = 12_345;
    s.set_current_era(1);
    s.set_era_payout(0, total_payout_0);

    assert!(s.payout_stakers(0, 11).is_ok());
    assert!(s.payout_stakers(0, 21).is_ok());

    assert!(s.balance(11) > init_11);
    // 11 holds every point of the era, so the handler saw the whole payout
    assert_eq!(s.reward_handler_total, total_payout_0);
}
