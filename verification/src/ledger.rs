//! The per-stash bonding record: total and active funds, unlocking chunks,
//! claimed-reward eras and the optional identity token.

use crate::perbill::Perbill;
use crate::{AccountId, Balance, CmixId, EraIndex};
use vstd::prelude::*;

verus! {

/// A portion of stake scheduled to unlock at a given era.
#[derive(Clone, Copy, PartialEq, Eq, Structural, Debug)]
pub struct UnlockChunk {
    /// Amount of funds to be unlocked.
    pub value: Balance,
    /// Era number at which point the funds are unlocked.
    pub era: EraIndex,
}

/// Preference of a validator: its commission and whether it blocks
/// nominations.
#[derive(Clone, Copy, PartialEq, Eq, Structural, Debug)]
pub struct ValidatorPrefs {
    /// The commission the validator keeps of each reward before the rest is
    /// split with nominators.
    pub commission: Perbill,
    /// Whether or not this validator is accepting more nominations.
    pub blocked: bool,
}

impl ValidatorPrefs {
    pub open spec fn wf(self) -> bool {
        self.commission.wf()
    }
}

impl Default for ValidatorPrefs {
    /// Zero commission, not blocked.
    fn default() -> (r: ValidatorPrefs)
        ensures
            r.wf(),
            r.commission.parts == 0,
            !r.blocked,
    {
        ValidatorPrefs { commission: Perbill { parts: 0 }, blocked: false }
    }
}

/// A nomination intent: the validators a nominator backs.
#[derive(Clone, PartialEq, Eq, Debug)]
pub struct Nominations {
    /// The targets of nomination.
    pub targets: Vec<AccountId>,
    /// The era the nominations were submitted.
    pub submitted_in: EraIndex,
}

/// Sum of the values of a sequence of unlocking chunks.
pub open spec fn chunks_total(s: Seq<UnlockChunk>) -> int
    decreases s.len(),
{
    if s.len() == 0 {
        0
    } else {
        chunks_total(s.drop_last()) + s.last().value
    }
}

pub proof fn lemma_chunks_total_nonneg(s: Seq<UnlockChunk>)
    ensures
        chunks_total(s) >= 0,
    decreases s.len(),
{
    if s.len() > 0 {
        lemma_chunks_total_nonneg(s.drop_last());
    }
}

proof fn lemma_chunks_total_take_step(s: Seq<UnlockChunk>, i: int)
    requires
        0 <= i < s.len(),
    ensures
        chunks_total(s.take(i + 1)) == chunks_total(s.take(i)) + s[i].value,
{
    assert(s.take(i + 1).drop_last() =~= s.take(i));
    assert(s.take(i + 1).last() == s[i]);
}

proof fn lemma_chunks_total_take_le(s: Seq<UnlockChunk>, i: int)
    requires
        0 <= i <= s.len(),
    ensures
        chunks_total(s.take(i)) <= chunks_total(s),
    decreases s.len() - i,
{
    if i == s.len() {
        assert(s.take(i) =~= s);
    } else {
        lemma_chunks_total_take_step(s, i);
        lemma_chunks_total_take_le(s, i + 1);
    }
}

/// The chunks of `s` that are still locked after `era`: those with an unlock
/// era strictly greater than `era`.
pub open spec fn chunks_still_locked(s: Seq<UnlockChunk>, era: EraIndex) -> Seq<UnlockChunk>
    decreases s.len(),
{
    if s.len() == 0 {
        Seq::empty()
    } else if s.last().era > era {
        chunks_still_locked(s.drop_last(), era).push(s.last())
    } else {
        chunks_still_locked(s.drop_last(), era)
    }
}

proof fn lemma_chunks_still_locked_total(s: Seq<UnlockChunk>, era: EraIndex)
    ensures
        chunks_total(chunks_still_locked(s, era)) <= chunks_total(s),
        chunks_total(chunks_still_locked(s, era)) >= 0,
    decreases s.len(),
{
    if s.len() == 0 {
    } else {
        lemma_chunks_still_locked_total(s.drop_last(), era);
        if s.last().era > era {
            let t = chunks_still_locked(s.drop_last(), era).push(s.last());
            assert(t.drop_last() =~= chunks_still_locked(s.drop_last(), era));
        }
    }
}

/// The ledger of a bonded stash.
#[derive(Clone, PartialEq, Eq, Debug)]
pub struct StakingLedger {
    /// The stash account whose balance is actually locked and at stake.
    pub stash: AccountId,
    /// The total amount of the stash's balance that is managed for staking:
    /// active stake plus everything still unlocking.
    pub total: Balance,
    /// The amount of the stash's balance that is actively at stake.
    pub active: Balance,
    /// Portions of the stake scheduled to be unlocked.
    pub unlocking: Vec<UnlockChunk>,
    /// Eras for which this stash has already been paid out.
    pub claimed_rewards: Vec<EraIndex>,
    /// The identity token registered to this stash, if any.
    pub cmix_id: Option<CmixId>,
}

impl StakingLedger {
    /// Well-formed: the total is exactly the active stake plus the unlocking
    /// chunks.
    pub open spec fn wf(self) -> bool {
        self.total == self.active + chunks_total(self.unlocking@)
    }

    /// A fresh ledger with all of `value` active.
    pub fn new_bonded(stash: AccountId, value: Balance, cmix_id: Option<CmixId>) -> (r:
        StakingLedger)
        ensures
            r.wf(),
            r.stash == stash,
            r.total == value,
            r.active == value,
            r.unlocking@ == Seq::<UnlockChunk>::empty(),
            r.claimed_rewards@ == Seq::<EraIndex>::empty(),
            r.cmix_id == cmix_id,
    {
        let r = StakingLedger {
            stash,
            total: value,
            active: value,
            unlocking: Vec::new(),
            claimed_rewards: Vec::new(),
            cmix_id,
        };
        proof {
            assert(r.unlocking@ =~= Seq::<UnlockChunk>::empty());
            assert(r.claimed_rewards@ =~= Seq::<EraIndex>::empty());
        }
        r
    }

    /// Add `extra` to the active stake and the total.
    pub fn add_stake(&mut self, extra: Balance)
        requires
            old(self).wf(),
            old(self).total + extra <= u64::MAX,
        ensures
            final(self).wf(),
            *final(self) == (StakingLedger {
                total: (old(self).total + extra) as u64,
                active: (old(self).active + extra) as u64,
                ..*old(self)
            }),
    {
        proof {
            lemma_chunks_total_nonneg(self.unlocking@);
        }
        self.total = self.total + extra;
        self.active = self.active + extra;
    }

    /// Move up to `value` from the active stake into an unlocking chunk that
    /// matures at `unlock_era`; a chunk for that era is merged. Returns the
    /// amount actually moved, which is capped at the active stake.
    pub fn unbond_stake(&mut self, value: Balance, unlock_era: EraIndex) -> (actual: Balance)
        requires
            old(self).wf(),
        ensures
            final(self).wf(),
            actual == if value <= old(self).active {
                value
            } else {
                old(self).active
            },
            final(self).active == old(self).active - actual,
            final(self).total == old(self).total,
            final(self).stash == old(self).stash,
            final(self).cmix_id == old(self).cmix_id,
            final(self).claimed_rewards == old(self).claimed_rewards,
            chunks_total(final(self).unlocking@) == chunks_total(old(self).unlocking@) + actual,
            final(self).unlocking@ == (if actual == 0 {
                old(self).unlocking@
            } else if old(self).unlocking@.len() > 0 && old(self).unlocking@.last().era
                == unlock_era {
                old(self).unlocking@.update(
                    old(self).unlocking@.len() - 1,
                    (UnlockChunk {
                        value: (old(self).unlocking@.last().value + actual) as u64,
                        era: unlock_era,
                    }),
                )
            } else {
                old(self).unlocking@.push(UnlockChunk { value: actual, era: unlock_era })
            }),
    {
        let actual = if value <= self.active {
            value
        } else {
            self.active
        };
        if actual > 0 {
            proof {
                lemma_chunks_total_nonneg(self.unlocking@);
            }
            self.active = self.active - actual;
            let n = self.unlocking.len();
            if n > 0 && self.unlocking[n - 1].era == unlock_era {
                proof {
                    lemma_chunks_total_nonneg(self.unlocking@.drop_last());
                }
                let merged = UnlockChunk {
                    value: self.unlocking[n - 1].value + actual,
                    era: unlock_era,
                };
                self.unlocking[n - 1] = merged;
                proof {
                    assert(self.unlocking@.drop_last() =~= old(self).unlocking@.drop_last());
                }
            } else {
                self.unlocking.push(UnlockChunk { value: actual, era: unlock_era });
                proof {
                    assert(self.unlocking@.drop_last() =~= old(self).unlocking@);
                }
            }
        }
        actual
    }

    /// Drop every unlocking chunk that has matured at `current_era` and
    /// shrink the total accordingly.
    pub fn remove_matured(&mut self, current_era: EraIndex)
        requires
            old(self).wf(),
        ensures
            final(self).wf(),
            final(self).unlocking@ == chunks_still_locked(old(self).unlocking@, current_era),
            final(self).active == old(self).active,
            final(self).stash == old(self).stash,
            final(self).cmix_id == old(self).cmix_id,
            final(self).claimed_rewards == old(self).claimed_rewards,
            final(self).total <= old(self).total,
    {
        let n = self.unlocking.len();
        let mut kept: Vec<UnlockChunk> = Vec::new();
        let mut kept_sum: u64 = 0;
        let mut i: usize = 0;
        proof {
            assert(kept@ =~= chunks_still_locked(self.unlocking@.take(0), current_era)) by {
                assert(self.unlocking@.take(0) =~= Seq::<UnlockChunk>::empty());
            }
            lemma_chunks_total_nonneg(self.unlocking@);
        }
        while i < n
            invariant
                i <= n,
                n == self.unlocking@.len(),
                self.wf(),
                kept@ == chunks_still_locked(self.unlocking@.take(i as int), current_era),
                kept_sum == chunks_total(kept@),
                kept_sum <= chunks_total(self.unlocking@.take(i as int)),
                chunks_total(self.unlocking@.take(i as int)) <= self.total,
            decreases n - i,
        {
            let c = self.unlocking[i];
            proof {
                lemma_chunks_total_take_step(self.unlocking@, i as int);
                lemma_chunks_total_take_le(self.unlocking@, i as int + 1);
                lemma_chunks_total_nonneg(self.unlocking@.take(i as int));
                assert(self.unlocking@.take(i as int + 1).drop_last() =~= self.unlocking@.take(
                    i as int,
                ));
                lemma_chunks_total_nonneg(chunks_still_locked(self.unlocking@.take(i as int), current_era));
            }
            if c.era > current_era {
                proof {
                    let k0 = kept@;
                    assert(k0.push(c).drop_last() =~= k0);
                    assert(k0.push(c).last() == c);
                }
                kept.push(c);
                kept_sum = kept_sum + c.value;
            }
            i = i + 1;
        }
        proof {
            assert(self.unlocking@.take(n as int) =~= self.unlocking@);
            lemma_chunks_total_nonneg(kept@);
        }
        self.unlocking = kept;
        self.total = self.active + kept_sum;
    }
}

} // verus!
