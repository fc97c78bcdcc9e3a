//! Versioned storage migrations.
//!
//! The stored release version is compared against each migration's expected
//! precondition version: when they match, the transformation runs once and
//! advances the version; otherwise `migrate` is a one-read no-op. Migrations
//! run in strict version order, which the upgrade driver enforces by walking
//! them oldest first.

pub mod v6;
pub mod v7;
pub mod v7dot5;
pub mod v8;

use vstd::prelude::*;

verus! {

/// A release version of the ledger layout, stored on chain.
#[derive(Clone, Copy, PartialEq, Eq, Structural, Debug)]
pub enum Releases {
    V5_0_0,
    V6_0_0,
    V7_0_0,
    V7_5_0,
    V8_0_0,
}

/// Position of a release in the upgrade order.
pub open spec fn release_ordinal(r: Releases) -> int {
    match r {
        Releases::V5_0_0 => 5,
        Releases::V6_0_0 => 6,
        Releases::V7_0_0 => 7,
        Releases::V7_5_0 => 8,
        Releases::V8_0_0 => 9,
    }
}

/// Cost of a storage read, in weight units.
pub const READ_WEIGHT: u64 = 25_000_000;

/// Cost of a storage write, in weight units.
pub const WRITE_WEIGHT: u64 = 100_000_000;

/// Weight of a full block, charged for a completed list regeneration.
pub const MAX_BLOCK_WEIGHT: u64 = 2_000_000_000_000;

/// Storage cells that only the migrations touch: the version counter, the
/// per-kind counters, the sorted voter list and the obsolete election items
/// that the oldest migration deletes.
#[derive(Clone, PartialEq, Eq, Debug)]
pub struct MigrationCells {
    /// The stored release version of the ledger layout.
    pub version: Releases,
    /// Number of validator-intent entries, seeded by the counter migration.
    pub counter_for_validators: u32,
    /// Number of nominator entries, seeded by the counter migration.
    pub counter_for_nominators: u32,
    /// The sorted voter list, re-derived from the nominators.
    pub sorted_list: Vec<u64>,
    /// Whether the obsolete snapshot-validators item is still stored.
    pub snapshot_validators: bool,
    /// Whether the obsolete snapshot-nominators item is still stored.
    pub snapshot_nominators: bool,
    /// Whether the obsolete queued-elected item is still stored.
    pub queued_elected: bool,
    /// Whether the obsolete queued-score item is still stored.
    pub queued_score: bool,
    /// Whether the obsolete era-election-status item is still stored.
    pub era_election_status: bool,
    /// Whether the obsolete is-current-session-final item is still stored.
    pub is_current_session_final: bool,
}

impl MigrationCells {
    /// The cells of a chain started on the current code version: nothing to
    /// migrate.
    pub fn new() -> (r: MigrationCells)
        ensures
            r.version == Releases::V8_0_0,
            r.counter_for_validators == 0,
            r.counter_for_nominators == 0,
            r.sorted_list@ == Seq::<u64>::empty(),
            !r.snapshot_validators,
            !r.snapshot_nominators,
            !r.queued_elected,
            !r.queued_score,
            !r.era_election_status,
            !r.is_current_session_final,
    {
        let r = MigrationCells {
            version: Releases::V8_0_0,
            counter_for_validators: 0,
            counter_for_nominators: 0,
            sorted_list: Vec::new(),
            snapshot_validators: false,
            snapshot_nominators: false,
            queued_elected: false,
            queued_score: false,
            era_election_status: false,
            is_current_session_final: false,
        };
        proof {
            assert(r.sorted_list@ =~= Seq::<u64>::empty());
        }
        r
    }
}

} // verus!
