//! Migration to V6_0_0: delete the obsolete election storage items left over
//! from the previous election machinery.

use crate::migrations::{release_ordinal, MigrationCells, Releases, READ_WEIGHT, WRITE_WEIGHT};
use crate::staking::Staking;
use vstd::prelude::*;

verus! {

/// Check to execute prior to the migration. The two items the migration
/// relies on must still be stored; the others may or may not be.
pub fn pre_migrate(s: &Staking) -> (r: Result<(), &'static str>)
    requires
        s.migration.is_current_session_final,
        s.migration.era_election_status,
    ensures
        r is Ok,
{
    Ok(())
}

/// Delete the six obsolete items and advance the version; a store not at the
/// expected version is left exactly as it is, at the cost of one read.
pub fn migrate(s: &mut Staking) -> (w: u64)
    requires
        old(s).wf(),
    ensures
        final(s).wf(),
        old(s).migration.version != Releases::V5_0_0 ==> *final(s) == *old(s) && w
            == READ_WEIGHT,
        // A completed migration advances the version by exactly one step.
        old(s).migration.version == Releases::V5_0_0 ==> release_ordinal(
            final(s).migration.version,
        ) == release_ordinal(old(s).migration.version) + 1,
        old(s).migration.version == Releases::V5_0_0 ==> {
            &&& *final(s) == (Staking { migration: final(s).migration, ..*old(s) })
            &&& final(s).migration == (MigrationCells {
                version: Releases::V6_0_0,
                snapshot_validators: false,
                snapshot_nominators: false,
                queued_elected: false,
                queued_score: false,
                era_election_status: false,
                is_current_session_final: false,
                ..old(s).migration
            })
            &&& w == 7 * WRITE_WEIGHT
        },
{
    if s.migration.version != Releases::V5_0_0 {
        return READ_WEIGHT;
    }
    s.migration.snapshot_validators = false;
    s.migration.snapshot_nominators = false;
    s.migration.queued_elected = false;
    s.migration.queued_score = false;
    s.migration.era_election_status = false;
    s.migration.is_current_session_final = false;
    s.migration.version = Releases::V6_0_0;
    7 * WRITE_WEIGHT
}

} // verus!
