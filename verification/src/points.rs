//! The era reward-points ledger: per-validator block-production credit.
//!
//! Once a validator has been credited at all in an era it holds at least one
//! point (a "bonus point for existing"), and deductions floor at one point.
//! The total always mirrors the sum of the individual counts, clamped at the
//! `u32` bound as every addition saturates.

use crate::arith::{clamp_u32, sat_add_u32};
use crate::kvstore::{lemma_map_of_contains, lemma_map_of_index, KvStore};
use crate::AccountId;
use vstd::pervasive::unreached;
use vstd::prelude::*;

verus! {

/// Sum of the point counts of an entry sequence.
pub open spec fn points_sum(s: Seq<(u64, u32)>) -> int
    decreases s.len(),
{
    if s.len() == 0 {
        0
    } else {
        points_sum(s.drop_last()) + s.last().1
    }
}

proof fn lemma_points_sum_nonneg(s: Seq<(u64, u32)>)
    ensures
        points_sum(s) >= 0,
    decreases s.len(),
{
    if s.len() > 0 {
        lemma_points_sum_nonneg(s.drop_last());
    }
}

proof fn lemma_points_sum_update(s: Seq<(u64, u32)>, i: int, v: u32)
    requires
        0 <= i < s.len(),
    ensures
        points_sum(s.update(i, (s[i].0, v))) == points_sum(s) - s[i].1 + v,
    decreases s.len(),
{
    let t = s.update(i, (s[i].0, v));
    if i == s.len() - 1 {
        assert(t.drop_last() =~= s.drop_last());
    } else {
        assert(t.drop_last() =~= s.drop_last().update(i, (s[i].0, v)));
        assert(s.drop_last()[i] == s[i]);
        lemma_points_sum_update(s.drop_last(), i, v);
        assert(t.last() == s.last());
    }
}

proof fn lemma_points_sum_take_step(s: Seq<(u64, u32)>, i: int)
    requires
        0 <= i < s.len(),
    ensures
        points_sum(s.take(i + 1)) == points_sum(s.take(i)) + s[i].1,
{
    assert(s.take(i + 1).drop_last() =~= s.take(i));
    assert(s.take(i + 1).last() == s[i]);
}

/// The individual map after one credit: a validator touched for the first
/// time starts at one bonus point plus the credited points; a validator
/// already present just gains the credited points. Additions saturate.
pub open spec fn reward_one_map(m: Map<u64, u32>, v: u64, p: u32) -> Map<u64, u32> {
    if m.contains_key(v) {
        m.insert(v, clamp_u32(m[v] + p))
    } else {
        m.insert(v, clamp_u32(1 + p))
    }
}

/// The total after one credit: it grows by exactly what the individual count
/// grew by, saturating.
pub open spec fn reward_one_total(m: Map<u64, u32>, total: u32, v: u64, p: u32) -> u32 {
    if m.contains_key(v) {
        clamp_u32(total + (clamp_u32(m[v] + p) - m[v]))
    } else {
        clamp_u32(total + clamp_u32(1 + p))
    }
}

/// Individual map and total after a whole list of credits, applied in order.
pub open spec fn reward_seq(m: Map<u64, u32>, total: u32, list: Seq<(u64, u32)>) -> (
    Map<u64, u32>,
    u32,
)
    decreases list.len(),
{
    if list.len() == 0 {
        (m, total)
    } else {
        reward_seq(
            reward_one_map(m, list[0].0, list[0].1),
            reward_one_total(m, total, list[0].0, list[0].1),
            list.drop_first(),
        )
    }
}

/// The individual map after one deduction: a validator with an entry loses
/// the points but never drops below one; a validator without an entry is
/// unaffected.
pub open spec fn deduct_one_map(m: Map<u64, u32>, v: u64, p: u32) -> Map<u64, u32> {
    if m.contains_key(v) {
        m.insert(
            v,
            if m[v] > p {
                (m[v] - p) as u32
            } else {
                1u32
            },
        )
    } else {
        m
    }
}

/// Individual map after a whole list of deductions, applied in order.
pub open spec fn deduct_seq(m: Map<u64, u32>, list: Seq<(u64, u32)>) -> Map<u64, u32>
    decreases list.len(),
{
    if list.len() == 0 {
        m
    } else {
        deduct_seq(deduct_one_map(m, list[0].0, list[0].1), list.drop_first())
    }
}

/// Reward points of an era: the total and the count per validator.
pub struct EraRewardPoints {
    /// Total number of points, the sum of the individual counts (clamped).
    pub total: u32,
    /// The reward points earned by each validator credited this era.
    pub individual: KvStore<u32>,
}

impl EraRewardPoints {
    /// Well-formed: the total mirrors the sum of the individual counts, and
    /// every credited validator holds at least one point.
    pub open spec fn wf(self) -> bool {
        &&& self.individual.wf()
        &&& self.total == clamp_u32(points_sum(self.individual.entries_seq()))
        &&& forall|i: int|
            0 <= i < self.individual.entries_seq().len() ==> self.individual.entries_seq()[i].1
                >= 1
    }

    /// Every credited validator holds at least one point.
    pub proof fn lemma_floor(self, v: u64)
        requires
            self.wf(),
            self.individual@.contains_key(v),
        ensures
            self.individual@[v] >= 1,
    {
        lemma_map_of_contains(self.individual.entries_seq(), v);
        let i = choose|i: int|
            0 <= i < self.individual.entries_seq().len() && self.individual.entries_seq()[i].0
                == v;
        lemma_map_of_index(self.individual.entries_seq(), i);
    }

    /// No points at all.
    pub fn new() -> (r: EraRewardPoints)
        ensures
            r.wf(),
            r.total == 0,
            r.individual@ == Map::<u64, u32>::empty(),
    {
        EraRewardPoints { total: 0, individual: KvStore::new() }
    }

    /// Credit `p` points to validator `v`.
    pub fn reward_one(&mut self, v: AccountId, p: u32)
        requires
            old(self).wf(),
        ensures
            final(self).wf(),
            final(self).individual@ == reward_one_map(old(self).individual@, v, p),
            final(self).total == reward_one_total(old(self).individual@, old(self).total, v, p),
    {
        let has = self.individual.contains_key(v);
        if has {
            let current: u32 = match self.individual.get(v) {
                Some(c) => *c,
                None => unreached(),
            };
            let updated = sat_add_u32(current, p);
            let added = updated - current;
            proof {
                lemma_points_sum_nonneg(self.individual.entries_seq());
            }
            self.individual.insert(v, updated);
            proof {
                let s0 = old(self).individual.entries_seq();
                let i = choose|i: int|
                    0 <= i < s0.len() && s0[i].0 == v && self.individual.entries_seq()
                        == s0.update(i, (v, updated));
                lemma_map_of_index(s0, i);
                lemma_points_sum_update(s0, i, updated);
            }
            self.total = sat_add_u32(self.total, added);
        } else {
            let first = sat_add_u32(1, p);
            proof {
                lemma_points_sum_nonneg(self.individual.entries_seq());
            }
            self.individual.insert(v, first);
            proof {
                let s0 = old(self).individual.entries_seq();
                assert(self.individual.entries_seq().drop_last() =~= s0);
            }
            self.total = sat_add_u32(self.total, first);
        }
    }

    /// Credit a list of `(validator, points)` pairs in order. The first touch
    /// of a validator in an era grants one bonus point on top.
    pub fn reward_by_ids(&mut self, list: &Vec<(AccountId, u32)>)
        requires
            old(self).wf(),
        ensures
            final(self).wf(),
            final(self).individual@ == reward_seq(
                old(self).individual@,
                old(self).total,
                list@,
            ).0,
            final(self).total == reward_seq(old(self).individual@, old(self).total, list@).1,
    {
        let n = list.len();
        let mut i: usize = 0;
        proof {
            assert(list@.skip(0) =~= list@);
        }
        while i < n
            invariant
                i <= n,
                n == list@.len(),
                self.wf(),
                reward_seq(self.individual@, self.total, list@.skip(i as int)) == reward_seq(
                    old(self).individual@,
                    old(self).total,
                    list@,
                ),
            decreases n - i,
        {
            let (v, p) = list[i];
            proof {
                assert(list@.skip(i as int)[0] == list@[i as int]);
                assert(list@.skip(i as int).drop_first() =~= list@.skip(i as int + 1));
            }
            self.reward_one(v, p);
            i = i + 1;
        }
        proof {
            assert(list@.skip(n as int) =~= Seq::<(u64, u32)>::empty());
        }
    }

    /// Recompute the total from the individual counts.
    fn compute_total(&self) -> (r: u32)
        requires
            self.individual.wf(),
        ensures
            r == clamp_u32(points_sum(self.individual.entries_seq())),
    {
        let n = self.individual.entry_count();
        let mut t: u32 = 0;
        let mut i: usize = 0;
        proof {
            assert(self.individual.entries_seq().take(0) =~= Seq::<(u64, u32)>::empty());
        }
        while i < n
            invariant
                i <= n,
                n == self.individual.entries_seq().len(),
                self.individual.wf(),
                t == clamp_u32(points_sum(self.individual.entries_seq().take(i as int))),
            decreases n - i,
        {
            let p = *self.individual.value_at(i);
            proof {
                lemma_points_sum_take_step(self.individual.entries_seq(), i as int);
                lemma_points_sum_nonneg(self.individual.entries_seq().take(i as int));
            }
            t = sat_add_u32(t, p);
            i = i + 1;
        }
        proof {
            assert(self.individual.entries_seq().take(n as int) =~= self.individual.entries_seq());
        }
        t
    }

    /// Deduct a list of `(validator, points)` pairs in order, flooring each
    /// credited validator at one point; validators without an entry are
    /// unaffected. The total is recomputed from the individual counts.
    pub fn deduct_by_ids(&mut self, list: &Vec<(AccountId, u32)>)
        requires
            old(self).wf(),
        ensures
            final(self).wf(),
            final(self).individual@ == deduct_seq(old(self).individual@, list@),
    {
        let n = list.len();
        let mut i: usize = 0;
        proof {
            assert(list@.skip(0) =~= list@);
        }
        while i < n
            invariant
                i <= n,
                n == list@.len(),
                self.individual.wf(),
                forall|j: int|
                    0 <= j < self.individual.entries_seq().len()
                        ==> self.individual.entries_seq()[j].1 >= 1,
                deduct_seq(self.individual@, list@.skip(i as int)) == deduct_seq(
                    old(self).individual@,
                    list@,
                ),
            decreases n - i,
        {
            let (v, p) = list[i];
            proof {
                assert(list@.skip(i as int)[0] == list@[i as int]);
                assert(list@.skip(i as int).drop_first() =~= list@.skip(i as int + 1));
            }
            let has = self.individual.contains_key(v);
            if has {
                let current: u32 = match self.individual.get(v) {
                    Some(c) => *c,
                    None => unreached(),
                };
                let updated = if current > p {
                    current - p
                } else {
                    1
                };
                proof {
                    lemma_map_of_contains(self.individual.entries_seq(), v);
                }
                self.individual.insert(v, updated);
            }
            i = i + 1;
        }
        let t = self.compute_total();
        self.total = t;
        proof {
            assert(list@.skip(n as int) =~= Seq::<(u64, u32)>::empty());
        }
    }
}

} // verus!
