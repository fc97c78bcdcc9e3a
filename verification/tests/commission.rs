//! The commission floor on validate calls: exactly at the minimum succeeds,
//! strictly below fails.

use staking_core::ledger::ValidatorPrefs;
use staking_core::perbill::Perbill;
use staking_core::staking::{Error, Staking};

fn cmix_id(b: u8) -> Option<u64> {
    Some(b as u64)
}

#[test]
fn min_validator_commission_check_works() {
    let mut s = Staking::new(3, Perbill::from_percent(2), 1);
    s.set_balance(3, 500);

    assert!(s.bond(3, 4, 500, cmix_id(3u8)).is_ok());

    // commission lower than allowed is not enough to be a validator
    assert_eq!(
        s.validate(
            4,
            ValidatorPrefs {
                commission: Perbill::from_percent(1),
                blocked: false
            }
        ),
        Err(Error::ValidatorCommissionTooLow)
    );

    // 2 percent is exactly enough
    assert!(s
        .validate(
            4,
            ValidatorPrefs {
                commission: Perbill::from_percent(2),
                blocked: false
            }
        )
        .is_ok());

    // chill
    assert!(s.chill(4).is_ok());

    // >2 percent is also enough
    assert!(s
        .validate(
            4,
            ValidatorPrefs {
                commission: Perbill::from_percent(3),
                blocked: false
            }
        )
        .is_ok());
}
