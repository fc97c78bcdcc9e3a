//! Exposure records: the stake backing a validator in an era.
//!
//! A custody-classified nominator's stake is recorded separately under
//! `custody` and never enters `own`, `others` or the reward-bearing `total`,
//! though the election provider still sees it when allocating seats.

use crate::arith::clamp_u64;
use crate::{AccountId, Balance};
use vstd::prelude::*;

verus! {

/// A snapshot of one nominator's stake behind a validator.
#[derive(Clone, Copy, PartialEq, Eq, Structural, Debug)]
pub struct IndividualExposure {
    /// The stash of the nominator in question.
    pub who: AccountId,
    /// Amount of funds exposed.
    pub value: Balance,
}

/// A snapshot of the total stake behind a validator in an era.
#[derive(Clone, PartialEq, Eq, Debug)]
pub struct Exposure {
    /// The reward-bearing balance backing this validator: own stake plus the
    /// non-custody nominations.
    pub total: Balance,
    /// The amount contributed by custody accounts, kept apart from `total`.
    pub custody: Balance,
    /// The validator's own stash that is exposed.
    pub own: Balance,
    /// The portions of non-custody nominator stashes that are exposed.
    pub others: Vec<IndividualExposure>,
}

impl Exposure {
    /// A copy of the ordinary-nominator exposures.
    pub fn others_copy(&self) -> (r: Vec<IndividualExposure>)
        ensures
            r@ == self.others@,
    {
        let n = self.others.len();
        let mut r: Vec<IndividualExposure> = Vec::new();
        let mut i: usize = 0;
        while i < n
            invariant
                i <= n,
                n == self.others@.len(),
                r@ == self.others@.take(i as int),
            decreases n - i,
        {
            r.push(self.others[i]);
            proof {
                assert(self.others@.take(i as int + 1) =~= self.others@.take(i as int).push(
                    self.others@[i as int],
                ));
            }
            i = i + 1;
        }
        proof {
            assert(self.others@.take(n as int) =~= self.others@);
        }
        r
    }
}

/// One backing assignment produced by the election provider: a winning
/// validator and the stake each voter put behind it.
pub struct Support {
    /// The elected validator.
    pub validator: AccountId,
    /// `(voter, stake)` pairs backing the validator, the validator's own
    /// stake among them.
    pub voters: Vec<(AccountId, Balance)>,
}

/// Stake the validator itself put behind the candidacy.
pub open spec fn own_sum(validator: AccountId, voters: Seq<(AccountId, Balance)>) -> int
    decreases voters.len(),
{
    if voters.len() == 0 {
        0
    } else {
        own_sum(validator, voters.drop_last()) + if voters.last().0 == validator {
            voters.last().1 as int
        } else {
            0
        }
    }
}

/// Stake contributed by custody-classified voters other than the validator.
pub open spec fn custody_sum(
    validator: AccountId,
    voters: Seq<(AccountId, Balance)>,
    custody: Set<AccountId>,
) -> int
    decreases voters.len(),
{
    if voters.len() == 0 {
        0
    } else {
        custody_sum(validator, voters.drop_last(), custody) + if voters.last().0 != validator
            && custody.contains(voters.last().0) {
            voters.last().1 as int
        } else {
            0
        }
    }
}

/// The exposures of ordinary (non-custody) nominators, in voter order.
pub open spec fn others_seq(
    validator: AccountId,
    voters: Seq<(AccountId, Balance)>,
    custody: Set<AccountId>,
) -> Seq<IndividualExposure>
    decreases voters.len(),
{
    if voters.len() == 0 {
        Seq::empty()
    } else if voters.last().0 != validator && !custody.contains(voters.last().0) {
        others_seq(validator, voters.drop_last(), custody).push(
            IndividualExposure { who: voters.last().0, value: voters.last().1 },
        )
    } else {
        others_seq(validator, voters.drop_last(), custody)
    }
}

/// Stake contributed by ordinary nominators other than the validator.
pub open spec fn others_sum(
    validator: AccountId,
    voters: Seq<(AccountId, Balance)>,
    custody: Set<AccountId>,
) -> int
    decreases voters.len(),
{
    if voters.len() == 0 {
        0
    } else {
        others_sum(validator, voters.drop_last(), custody) + if voters.last().0 != validator
            && !custody.contains(voters.last().0) {
            voters.last().1 as int
        } else {
            0
        }
    }
}

/// What the exposure record of `validator` must hold, given the voters the
/// election provider assigned to it and the custody classification.
pub open spec fn exposure_matches(
    e: Exposure,
    validator: AccountId,
    voters: Seq<(AccountId, Balance)>,
    custody: Set<AccountId>,
) -> bool {
    &&& e.own == clamp_u64(own_sum(validator, voters))
    &&& e.custody == clamp_u64(custody_sum(validator, voters, custody))
    &&& e.others@ == others_seq(validator, voters, custody)
    &&& e.total == clamp_u64(own_sum(validator, voters) + others_sum(validator, voters, custody))
}

/// No custody account, and never the validator itself, appears among the
/// ordinary exposures.
pub proof fn lemma_others_excludes_custody(
    validator: AccountId,
    voters: Seq<(AccountId, Balance)>,
    custody: Set<AccountId>,
)
    ensures
        forall|j: int|
            0 <= j < others_seq(validator, voters, custody).len() ==> (#[trigger] others_seq(
                validator,
                voters,
                custody,
            )[j]).who != validator && !custody.contains(others_seq(validator, voters, custody)[j].who),
    decreases voters.len(),
{
    if voters.len() > 0 {
        lemma_others_excludes_custody(validator, voters.drop_last(), custody);
        let rec = others_seq(validator, voters.drop_last(), custody);
        let full = others_seq(validator, voters, custody);
        assert forall|j: int| 0 <= j < full.len() implies (#[trigger] full[j]).who != validator
            && !custody.contains(full[j].who) by {
            if j < rec.len() {
                assert(full[j] == rec[j]);
            }
        }
    }
}

proof fn lemma_sums_nonneg(
    validator: AccountId,
    voters: Seq<(AccountId, Balance)>,
    custody: Set<AccountId>,
)
    ensures
        own_sum(validator, voters) >= 0,
        custody_sum(validator, voters, custody) >= 0,
        others_sum(validator, voters, custody) >= 0,
    decreases voters.len(),
{
    if voters.len() > 0 {
        lemma_sums_nonneg(validator, voters.drop_last(), custody);
    }
}

proof fn lemma_sums_take_step(
    validator: AccountId,
    voters: Seq<(AccountId, Balance)>,
    custody: Set<AccountId>,
    j: int,
)
    requires
        0 <= j < voters.len(),
    ensures
        own_sum(validator, voters.take(j + 1)) == own_sum(validator, voters.take(j)) + if voters[j].0
            == validator {
            voters[j].1 as int
        } else {
            0
        },
        custody_sum(validator, voters.take(j + 1), custody) == custody_sum(
            validator,
            voters.take(j),
            custody,
        ) + if voters[j].0 != validator && custody.contains(voters[j].0) {
            voters[j].1 as int
        } else {
            0
        },
        others_sum(validator, voters.take(j + 1), custody) == others_sum(
            validator,
            voters.take(j),
            custody,
        ) + if voters[j].0 != validator && !custody.contains(voters[j].0) {
            voters[j].1 as int
        } else {
            0
        },
        others_seq(validator, voters.take(j + 1), custody) == if voters[j].0 != validator
            && !custody.contains(voters[j].0) {
            others_seq(validator, voters.take(j), custody).push(
                IndividualExposure { who: voters[j].0, value: voters[j].1 },
            )
        } else {
            others_seq(validator, voters.take(j), custody)
        },
{
    assert(voters.take(j + 1).drop_last() =~= voters.take(j));
    assert(voters.take(j + 1).last() == voters[j]);
}

/// Build the exposure of one validator from the voters the election provider
/// assigned to it. Custody stake goes to `custody` alone; all additions
/// saturate.
pub fn exposure_from_voters(
    validator: AccountId,
    voters: &Vec<(AccountId, Balance)>,
    custody: &crate::kvstore::KvStore<bool>,
) -> (e: Exposure)
    requires
        custody.wf(),
    ensures
        exposure_matches(e, validator, voters@, custody@.dom()),
{
    let cust = Ghost(custody@.dom());
    let n = voters.len();
    let mut own: u64 = 0;
    let mut cust_total: u64 = 0;
    let mut others: Vec<IndividualExposure> = Vec::new();
    let mut others_total: u64 = 0;
    let mut j: usize = 0;
    proof {
        assert(voters@.take(0) =~= Seq::<(AccountId, Balance)>::empty());
        assert(others@ =~= others_seq(validator, voters@.take(0), cust@));
    }
    while j < n
        invariant
            j <= n,
            n == voters@.len(),
            custody.wf(),
            cust@ == custody@.dom(),
            own == clamp_u64(own_sum(validator, voters@.take(j as int))),
            cust_total == clamp_u64(custody_sum(validator, voters@.take(j as int), cust@)),
            others@ == others_seq(validator, voters@.take(j as int), cust@),
            others_total == clamp_u64(others_sum(validator, voters@.take(j as int), cust@)),
        decreases n - j,
    {
        let (who, stake) = voters[j];
        proof {
            lemma_sums_take_step(validator, voters@, cust@, j as int);
            lemma_sums_nonneg(validator, voters@.take(j as int), cust@);
        }
        if who == validator {
            own = crate::arith::sat_add_u64(own, stake);
        } else if custody.contains_key(who) {
            cust_total = crate::arith::sat_add_u64(cust_total, stake);
        } else {
            others.push(IndividualExposure { who, value: stake });
            others_total = crate::arith::sat_add_u64(others_total, stake);
        }
        j = j + 1;
    }
    proof {
        assert(voters@.take(n as int) =~= voters@);
        lemma_sums_nonneg(validator, voters@, cust@);
    }
    let total = crate::arith::sat_add_u64(own, others_total);
    Exposure { total, custody: cust_total, own, others }
}

} // verus!
