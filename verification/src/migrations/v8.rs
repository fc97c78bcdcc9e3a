//! Migration to V8_0_0: re-derive the sorted voter list from the nominator
//! map, as the sorted-list provider would regenerate it.

use crate::kvstore::{lemma_map_of_contains, lemma_map_of_index};
use crate::migrations::{release_ordinal, MigrationCells, Releases, MAX_BLOCK_WEIGHT, READ_WEIGHT};
use crate::staking::Staking;
use vstd::prelude::*;

verus! {

/// The sorted voter list is sane: one entry per nominator, every entry a
/// nominator.
pub open spec fn sorted_list_sane(s: Staking) -> bool {
    &&& s.migration.sorted_list@.len() == s.nominators@.dom().len()
    &&& forall|i: int|
        0 <= i < s.migration.sorted_list@.len() ==> s.nominators@.contains_key(
            #[trigger] s.migration.sorted_list@[i],
        )
}

/// Check to execute prior to the migration.
pub fn pre_migrate(s: &Staking) -> (r: Result<(), &'static str>)
    ensures
        r is Ok <==> s.migration.version == Releases::V7_5_0,
{
    if s.migration.version == Releases::V7_5_0 {
        Ok(())
    } else {
        Err("must upgrade linearly")
    }
}

/// Regenerate the voter list from the nominator map and advance the version;
/// a store not at the expected version is left exactly as it is, at the cost
/// of one read. A completed regeneration is charged a full block.
pub fn migrate(s: &mut Staking) -> (w: u64)
    requires
        old(s).wf(),
    ensures
        final(s).wf(),
        old(s).migration.version != Releases::V7_5_0 ==> *final(s) == *old(s) && w == READ_WEIGHT,
        // A completed migration advances the version by exactly one step.
        old(s).migration.version == Releases::V7_5_0 ==> release_ordinal(
            final(s).migration.version,
        ) == release_ordinal(old(s).migration.version) + 1,
        old(s).migration.version == Releases::V7_5_0 ==> {
            &&& final(s).migration == (MigrationCells {
                version: Releases::V8_0_0,
                sorted_list: final(s).migration.sorted_list,
                ..old(s).migration
            })
            &&& final(s).migration.sorted_list@.len() == old(s).nominators@.dom().len()
            &&& forall|i: int|
                0 <= i < final(s).migration.sorted_list@.len()
                    ==> final(s).migration.sorted_list@[i] == old(s).nominators.entries_seq()[i].0
            &&& sorted_list_sane(*final(s))
            &&& *final(s) == (Staking { migration: final(s).migration, ..*old(s) })
            &&& w == MAX_BLOCK_WEIGHT
        },
{
    if s.migration.version != Releases::V7_5_0 {
        return READ_WEIGHT;
    }
    let regenerated = s.nominators.keys();
    proof {
        crate::kvstore::lemma_map_of_len(s.nominators.entries_seq());
        assert forall|i: int| 0 <= i < regenerated@.len() implies s.nominators@.contains_key(
            #[trigger] regenerated@[i],
        ) by {
            lemma_map_of_index(s.nominators.entries_seq(), i);
        }
    }
    s.migration.sorted_list = regenerated;
    s.migration.version = Releases::V8_0_0;
    MAX_BLOCK_WEIGHT
}

/// Check that the regenerated voter list is in a sane state.
pub fn post_migrate(s: &Staking) -> (r: Result<(), &'static str>)
    requires
        s.wf(),
    ensures
        r is Ok <==> sorted_list_sane(*s),
{
    let n = s.migration.sorted_list.len();
    let count = s.nominators.len();
    if n != count {
        return Err("SortedListProvider is not in a sane state.");
    }
    let mut i: usize = 0;
    while i < n
        invariant
            i <= n,
            n == s.migration.sorted_list@.len(),
            s.wf(),
            forall|j: int|
                0 <= j < i ==> s.nominators@.contains_key(#[trigger] s.migration.sorted_list@[j]),
        decreases n - i,
    {
        if !s.nominators.contains_key(s.migration.sorted_list[i]) {
            return Err("SortedListProvider is not in a sane state.");
        }
        i = i + 1;
    }
    Ok(())
}

} // verus!
