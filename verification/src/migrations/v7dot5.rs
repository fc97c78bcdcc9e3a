//! Migration to V7_5_0: give every stored exposure its custody field,
//! defaulted to zero, so custody stake can be accounted separately from the
//! reward-bearing total.

use crate::arith::{clamp_u64, sat_add_u64, sat_mul_u64};
use crate::exposure::Exposure;
use crate::kvstore::{lemma_map_of_contains, lemma_map_of_index, KvStore};
use crate::migrations::{release_ordinal, MigrationCells, Releases, READ_WEIGHT, WRITE_WEIGHT};
use crate::staking::{EraInfo, Staking};
use vstd::pervasive::unreached;
use vstd::prelude::*;

verus! {

/// Exposure `b` is exposure `a` with its custody stake reset to zero.
pub open spec fn custody_zeroed(a: Exposure, b: Exposure) -> bool {
    &&& b.custody == 0
    &&& b.total == a.total
    &&& b.own == a.own
    &&& b.others@ == a.others@
}

/// Era record `b` is era record `a` with every exposure's custody reset.
pub open spec fn info_custody_zeroed(a: EraInfo, b: EraInfo) -> bool {
    &&& b.stakers@.dom() == a.stakers@.dom()
    &&& forall|v: u64| #[trigger]
        a.stakers@.contains_key(v) ==> custody_zeroed(a.stakers@[v], b.stakers@[v])
    &&& b.prefs@ == a.prefs@
    &&& b.points.individual@ == a.points.individual@
    &&& b.points.total == a.points.total
    &&& b.payout == a.payout
}

/// Every stored exposure carries zero custody stake.
pub open spec fn era_custody_zero(info: EraInfo) -> bool {
    forall|v: u64| #[trigger] info.stakers@.contains_key(v) ==> info.stakers@[v].custody == 0
}

/// Every stored exposure of every era carries zero custody stake.
pub open spec fn all_custody_zero(s: Staking) -> bool {
    forall|e: u64| #[trigger] s.eras@.contains_key(e) ==> era_custody_zero(s.eras@[e])
}

/// Total number of exposures stored across a sequence of era entries.
pub open spec fn stakers_sum(s: Seq<(u64, EraInfo)>) -> int
    decreases s.len(),
{
    if s.len() == 0 {
        0
    } else {
        stakers_sum(s.drop_last()) + s.last().1.stakers@.dom().len()
    }
}

proof fn lemma_stakers_sum_nonneg(s: Seq<(u64, EraInfo)>)
    ensures
        stakers_sum(s) >= 0,
    decreases s.len(),
{
    if s.len() > 0 {
        lemma_stakers_sum_nonneg(s.drop_last());
    }
}

proof fn lemma_stakers_sum_take_step(s: Seq<(u64, EraInfo)>, i: int)
    requires
        0 <= i < s.len(),
    ensures
        stakers_sum(s.take(i + 1)) == stakers_sum(s.take(i)) + s[i].1.stakers@.dom().len(),
{
    assert(s.take(i + 1).drop_last() =~= s.take(i));
    assert(s.take(i + 1).last() == s[i]);
}

/// Check to execute prior to the migration.
pub fn pre_migrate(s: &Staking) -> (r: Result<(), &'static str>)
    ensures
        r is Ok <==> s.migration.version == Releases::V7_0_0,
{
    if s.migration.version == Releases::V7_0_0 {
        Ok(())
    } else {
        Err("must upgrade linearly")
    }
}

/// Reset the custody stake of every exposure in one stakers map; returns how
/// many exposures were touched.
fn zero_custody_all(m: &mut KvStore<Exposure>) -> (count: u64)
    requires
        old(m).wf(),
    ensures
        final(m).wf(),
        final(m)@.dom() == old(m)@.dom(),
        forall|k: u64| #[trigger]
            old(m)@.contains_key(k) ==> custody_zeroed(old(m)@[k], final(m)@[k]),
        count as nat == old(m)@.dom().len(),
{
    let n = m.entry_count();
    let mut i: usize = 0;
    while i < n
        invariant
            i <= n,
            n == m.entries_seq().len(),
            m.wf(),
            m.entries_seq().len() == old(m).entries_seq().len(),
            forall|j: int|
                0 <= j < n ==> (#[trigger] m.entries_seq()[j]).0 == old(m).entries_seq()[j].0,
            forall|j: int|
                0 <= j < i ==> custody_zeroed(
                    old(m).entries_seq()[j].1,
                    (#[trigger] m.entries_seq()[j]).1,
                ),
            forall|j: int| i <= j < n ==> #[trigger] m.entries_seq()[j] == old(m).entries_seq()[j],
        decreases n - i,
    {
        let zeroed = {
            let e = m.value_at(i);
            Exposure { total: e.total, custody: 0, own: e.own, others: e.others_copy() }
        };
        m.set_value_at(i, zeroed);
        i = i + 1;
    }
    proof {
        assert forall|k: u64| old(m)@.contains_key(k) implies m@.contains_key(k)
            && custody_zeroed(old(m)@[k], m@[k]) by {
            lemma_map_of_contains(old(m).entries_seq(), k);
            let j = choose|j: int|
                0 <= j < old(m).entries_seq().len() && old(m).entries_seq()[j].0 == k;
            lemma_map_of_index(old(m).entries_seq(), j);
            lemma_map_of_index(m.entries_seq(), j);
        }
        assert forall|k: u64| m@.contains_key(k) implies old(m)@.contains_key(k) by {
            lemma_map_of_contains(m.entries_seq(), k);
            let j = choose|j: int| 0 <= j < m.entries_seq().len() && m.entries_seq()[j].0 == k;
            lemma_map_of_index(old(m).entries_seq(), j);
        }
        assert(m@.dom() =~= old(m)@.dom());
    }
    let count = m.len();
    count as u64
}

/// Reset the custody stake of every exposure of every era and advance the
/// version; a store not at the expected version is left exactly as it is, at
/// the cost of one read. The returned weight charges one read and one write
/// per translated exposure, plus one of each for the version cell.
pub fn migrate(s: &mut Staking) -> (w: u64)
    requires
        old(s).wf(),
    ensures
        final(s).wf(),
        old(s).migration.version != Releases::V7_0_0 ==> *final(s) == *old(s) && w == READ_WEIGHT,
        // A completed migration advances the version by exactly one step.
        old(s).migration.version == Releases::V7_0_0 ==> release_ordinal(
            final(s).migration.version,
        ) == release_ordinal(old(s).migration.version) + 1,
        old(s).migration.version == Releases::V7_0_0 ==> {
            &&& final(s).migration == (MigrationCells {
                version: Releases::V7_5_0,
                ..old(s).migration
            })
            &&& final(s).eras@.dom() == old(s).eras@.dom()
            &&& forall|e: u64| #[trigger]
                old(s).eras@.contains_key(e) ==> info_custody_zeroed(
                    old(s).eras@[e],
                    final(s).eras@[e],
                )
            &&& all_custody_zero(*final(s))
            &&& *final(s) == (Staking {
                eras: final(s).eras,
                migration: final(s).migration,
                ..*old(s)
            })
            &&& w == clamp_u64(
                clamp_u64(
                    clamp_u64(1 + clamp_u64(stakers_sum(old(s).eras.entries_seq())))
                        * READ_WEIGHT,
                ) + clamp_u64(
                    clamp_u64(1 + clamp_u64(stakers_sum(old(s).eras.entries_seq())))
                        * WRITE_WEIGHT,
                ),
            )
        },
{
    if s.migration.version != Releases::V7_0_0 {
        return READ_WEIGHT;
    }
    let keys = s.eras.keys();
    let n = keys.len();
    proof {
        assert forall|a: int, b: int| 0 <= a < b < keys@.len() implies keys@[a] != keys@[b] by {
            assert(keys@[a] == s.eras.entries_seq()[a].0);
            assert(keys@[b] == s.eras.entries_seq()[b].0);
        }
        assert forall|j: int| 0 <= j < keys@.len() implies old(s).eras@.contains_key(
            #[trigger] keys@[j],
        ) by {
            lemma_map_of_index(s.eras.entries_seq(), j);
        }
    }
    let mut count: u64 = 0;
    let mut i: usize = 0;
    proof {
        assert(old(s).eras.entries_seq().take(0) =~= Seq::<(u64, EraInfo)>::empty());
    }
    while i < n
        invariant
            i <= n,
            n == keys@.len(),
            n == old(s).eras.entries_seq().len(),
            forall|j: int| 0 <= j < n ==> keys@[j] == old(s).eras.entries_seq()[j].0,
            count == clamp_u64(stakers_sum(old(s).eras.entries_seq().take(i as int))),
            old(s).wf(),
            s.wf(),
            *s == (Staking { eras: s.eras, ..*old(s) }),
            forall|a: int, b: int| 0 <= a < b < n ==> keys@[a] != keys@[b],
            forall|j: int| 0 <= j < n ==> old(s).eras@.contains_key(#[trigger] keys@[j]),
            s.eras@.dom() == old(s).eras@.dom(),
            forall|e: u64| #[trigger]
                old(s).eras@.contains_key(e) ==> if exists|j: int| 0 <= j < i && keys@[j] == e {
                    info_custody_zeroed(old(s).eras@[e], s.eras@[e])
                } else {
                    s.eras@[e] == old(s).eras@[e]
                },
        decreases n - i,
    {
        let k = keys[i];
        let ghost pre_iter = s.eras@;
        let info_opt = s.eras.remove(k);
        let mut info = match info_opt {
            Some(x) => x,
            None => unreached(),
        };
        proof {
            lemma_map_of_index(old(s).eras.entries_seq(), i as int);
            lemma_stakers_sum_take_step(old(s).eras.entries_seq(), i as int);
            lemma_stakers_sum_nonneg(old(s).eras.entries_seq().take(i as int));
        }
        let c = zero_custody_all(&mut info.stakers);
        count = sat_add_u64(count, c);
        s.eras.insert(k, info);
        proof {
            assert(s.eras@ =~= pre_iter.insert(k, s.eras@[k]));
            assert(s.eras@.dom() =~= old(s).eras@.dom());
            assert forall|e: u64| #[trigger] old(s).eras@.contains_key(e) implies (if exists|j: int|
                0 <= j < i + 1 && keys@[j] == e {
                info_custody_zeroed(old(s).eras@[e], s.eras@[e])
            } else {
                s.eras@[e] == old(s).eras@[e]
            }) by {
                if e == k {
                    assert(keys@[i as int] == e);
                }
            }
        }
        i = i + 1;
    }
    s.migration.version = Releases::V7_5_0;
    proof {
        assert(old(s).eras.entries_seq().take(n as int) =~= old(s).eras.entries_seq());
        assert forall|e: u64| #[trigger] old(s).eras@.contains_key(e) implies info_custody_zeroed(
            old(s).eras@[e],
            s.eras@[e],
        ) by {
            lemma_map_of_contains(old(s).eras.entries_seq(), e);
            let j = choose|j: int|
                0 <= j < old(s).eras.entries_seq().len() && old(s).eras.entries_seq()[j].0 == e;
            assert(keys@[j] == e);
        }
        assert forall|e: u64| #[trigger] s.eras@.contains_key(e) implies era_custody_zero(
            s.eras@[e],
        ) by {
            assert(old(s).eras@.contains_key(e));
        }
    }
    let touched = sat_add_u64(1, count);
    sat_add_u64(sat_mul_u64(touched, READ_WEIGHT), sat_mul_u64(touched, WRITE_WEIGHT))
}

/// Check all exposures have their custody stake set to zero.
pub fn post_migrate(s: &Staking) -> (r: Result<(), &'static str>)
    requires
        s.wf(),
    ensures
        r is Ok <==> all_custody_zero(*s),
{
    let n = s.eras.entry_count();
    let mut i: usize = 0;
    while i < n
        invariant
            i <= n,
            n == s.eras.entries_seq().len(),
            s.wf(),
            forall|j: int| 0 <= j < i ==> era_custody_zero((#[trigger] s.eras.entries_seq()[j]).1),
        decreases n - i,
    {
        proof {
            lemma_map_of_index(s.eras.entries_seq(), i as int);
        }
        let info = s.eras.value_at(i);
        if !era_all_zero(info) {
            proof {
                lemma_map_of_index(s.eras.entries_seq(), i as int);
            }
            return Err("custody value is not zero");
        }
        i = i + 1;
    }
    proof {
        assert forall|e: u64| #[trigger] s.eras@.contains_key(e) implies era_custody_zero(
            s.eras@[e],
        ) by {
            lemma_map_of_contains(s.eras.entries_seq(), e);
            let j = choose|j: int|
                0 <= j < s.eras.entries_seq().len() && s.eras.entries_seq()[j].0 == e;
            lemma_map_of_index(s.eras.entries_seq(), j);
        }
    }
    Ok(())
}

/// Whether every exposure of one era record carries zero custody stake.
fn era_all_zero(info: &EraInfo) -> (r: bool)
    requires
        info.wf(),
    ensures
        r == era_custody_zero(*info),
{
    let n = info.stakers.entry_count();
    let mut i: usize = 0;
    while i < n
        invariant
            i <= n,
            n == info.stakers.entries_seq().len(),
            info.wf(),
            forall|j: int|
                0 <= j < i ==> (#[trigger] info.stakers.entries_seq()[j]).1.custody == 0,
        decreases n - i,
    {
        let e = info.stakers.value_at(i);
        if e.custody != 0 {
            proof {
                lemma_map_of_index(info.stakers.entries_seq(), i as int);
            }
            return false;
        }
        i = i + 1;
    }
    proof {
        assert forall|v: u64| #[trigger] info.stakers@.contains_key(v) implies info.stakers@[v].custody
            == 0 by {
            lemma_map_of_contains(info.stakers.entries_seq(), v);
            let j = choose|j: int|
                0 <= j < info.stakers.entries_seq().len() && info.stakers.entries_seq()[j].0 == v;
            lemma_map_of_index(info.stakers.entries_seq(), j);
        }
    }
    true
}

} // verus!
