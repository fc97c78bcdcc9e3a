//! Migration to V7_0_0: seed the counters for the validator and nominator
//! maps from the maps themselves.

use crate::arith::{clamp_u32, clamp_u64, sat_add_u64, sat_mul_u64};
use crate::migrations::{release_ordinal, MigrationCells, Releases, READ_WEIGHT, WRITE_WEIGHT};
use crate::staking::Staking;
use vstd::prelude::*;

verus! {

/// Check to execute prior to the migration: the counters must not have been
/// seeded yet and the store must be at the previous version.
pub fn pre_migrate(s: &Staking) -> (r: Result<(), &'static str>)
    requires
        s.migration.counter_for_validators == 0,
        s.migration.counter_for_nominators == 0,
        s.migration.version == Releases::V6_0_0,
    ensures
        r is Ok,
{
    Ok(())
}

/// Count the validator-intent and nominator entries into the two counter
/// cells and advance the version; a store not at the expected version is left
/// exactly as it is, at the cost of one read.
pub fn migrate(s: &mut Staking) -> (w: u64)
    requires
        old(s).wf(),
    ensures
        final(s).wf(),
        old(s).migration.version != Releases::V6_0_0 ==> *final(s) == *old(s) && w == READ_WEIGHT,
        // A completed migration advances the version by exactly one step.
        old(s).migration.version == Releases::V6_0_0 ==> release_ordinal(
            final(s).migration.version,
        ) == release_ordinal(old(s).migration.version) + 1,
        old(s).migration.version == Releases::V6_0_0 ==> {
            &&& *final(s) == (Staking { migration: final(s).migration, ..*old(s) })
            &&& final(s).migration == (MigrationCells {
                version: Releases::V7_0_0,
                counter_for_validators: clamp_u32(old(s).validators@.dom().len() as int),
                counter_for_nominators: clamp_u32(old(s).nominators@.dom().len() as int),
                ..old(s).migration
            })
            &&& w == clamp_u64(
                clamp_u64(
                    clamp_u64(
                        old(s).validators@.dom().len() + old(s).nominators@.dom().len() as int,
                    ) * READ_WEIGHT,
                ) + 2 * WRITE_WEIGHT,
            )
        },
{
    if s.migration.version != Releases::V6_0_0 {
        return READ_WEIGHT;
    }
    let validator_count = s.validators.len();
    let nominator_count = s.nominators.len();
    s.migration.counter_for_validators = if validator_count > u32::MAX as usize {
        u32::MAX
    } else {
        validator_count as u32
    };
    s.migration.counter_for_nominators = if nominator_count > u32::MAX as usize {
        u32::MAX
    } else {
        nominator_count as u32
    };
    s.migration.version = Releases::V7_0_0;
    let reads = sat_mul_u64(
        sat_add_u64(validator_count as u64, nominator_count as u64),
        READ_WEIGHT,
    );
    sat_add_u64(reads, 2 * WRITE_WEIGHT)
}

} // verus!
