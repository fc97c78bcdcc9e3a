//! The library's laws: properties that hold across operations, stated over
//! the operations' post-relations and the state's well-formedness, and proved
//! once and for all.

use crate::exposure::{exposure_matches, lemma_others_excludes_custody, Exposure};
use crate::ledger::{chunks_still_locked, chunks_total};
use crate::points::{deduct_one_map, deduct_seq, reward_one_map, reward_seq};
use crate::staking::{
    bond_post, payout_post, set_cmix_id_post, slash_map, slash_others, validate_post,
    withdraw_post, Error, Staking,
};
use crate::{AccountId, Balance, CmixId, EraIndex};
use vstd::prelude::*;

verus! {

/// Registry injectivity: in a well-formed state, at most one stash holds any
/// given identity token — two bonded stashes that both hold token `t` are the
/// same stash. Every operation preserves well-formedness, so this holds after
/// every bond, set or transfer sequence.
pub proof fn lemma_cmix_id_unique(s: Staking, t: CmixId, s1: AccountId, s2: AccountId)
    requires
        s.wf(),
        s.is_stash(s1),
        s.stash_cmix_id(s1) == Some(t),
        s.is_stash(s2),
        s.stash_cmix_id(s2) == Some(t),
    ensures
        s1 == s2,
{
    let c1 = s.bonded@[s1];
    let c2 = s.bonded@[s2];
    assert(s.ledgers@.contains_key(c1));
    assert(s.ledgers@.contains_key(c2));
    assert(s.cmix_ids@[t] == s.ledgers@[c1].stash);
    assert(s.cmix_ids@[t] == s.ledgers@[c2].stash);
}

/// Bonding with an identity token, then a different stash bonding with the
/// same token, always fails with `ValidatorCmixIdNotUnique` and changes
/// nothing.
pub proof fn lemma_duplicate_token_bond_rejected(
    s0: Staking,
    s1: Staking,
    s2: Staking,
    stash_a: AccountId,
    controller_a: AccountId,
    value_a: Balance,
    t: CmixId,
    stash_b: AccountId,
    controller_b: AccountId,
    value_b: Balance,
    r1: Result<(), Error>,
    r2: Result<(), Error>,
)
    requires
        bond_post(s0, s1, stash_a, controller_a, value_a, Some(t), r1),
        r1 is Ok,
        !s1.is_stash(stash_b),
        !s1.is_controller(controller_b),
        bond_post(s1, s2, stash_b, controller_b, value_b, Some(t), r2),
    ensures
        r2 == Err::<(), Error>(Error::ValidatorCmixIdNotUnique),
        s2 == s1,
{
    assert(s1.cmix_ids@.contains_key(t));
}

/// Bonding with an identity token, then a tokenless stash trying to set the
/// same token, always fails with `ValidatorCmixIdNotUnique` and changes
/// nothing.
pub proof fn lemma_duplicate_token_set_rejected(
    s0: Staking,
    s1: Staking,
    s2: Staking,
    stash_a: AccountId,
    controller_a: AccountId,
    value_a: Balance,
    t: CmixId,
    stash_b: AccountId,
    r1: Result<(), Error>,
    r2: Result<(), Error>,
)
    requires
        bond_post(s0, s1, stash_a, controller_a, value_a, Some(t), r1),
        r1 is Ok,
        s1.is_stash(stash_b),
        s1.stash_cmix_id(stash_b) is None,
        set_cmix_id_post(s1, s2, stash_b, t, r2),
    ensures
        r2 == Err::<(), Error>(Error::ValidatorCmixIdNotUnique),
        s2 == s1,
{
    assert(s1.cmix_ids@.contains_key(t));
}

/// `validate` without a registered identity always fails with
/// `ValidatorMustHaveCmixId`, whatever the preferences say.
pub proof fn lemma_validate_requires_cmix_id(
    pre: Staking,
    post: Staking,
    controller: AccountId,
    prefs: crate::ledger::ValidatorPrefs,
    r: Result<(), Error>,
)
    requires
        validate_post(pre, post, controller, prefs, r),
        pre.is_controller(controller),
        pre.ledgers@[controller].cmix_id is None,
    ensures
        r == Err::<(), Error>(Error::ValidatorMustHaveCmixId),
        post == pre,
{
}

/// Commission floor boundary: with an identity registered, a validate call
/// with commission exactly at the configured minimum succeeds, and one
/// strictly below it fails with `ValidatorCommissionTooLow`.
pub proof fn lemma_commission_floor_boundary(
    pre: Staking,
    post: Staking,
    controller: AccountId,
    prefs: crate::ledger::ValidatorPrefs,
    r: Result<(), Error>,
)
    requires
        validate_post(pre, post, controller, prefs, r),
        pre.is_controller(controller),
        pre.ledgers@[controller].cmix_id is Some,
    ensures
        prefs.commission.parts >= pre.min_validator_commission.parts ==> r is Ok,
        prefs.commission.parts < pre.min_validator_commission.parts ==> r == Err::<(), Error>(
            Error::ValidatorCommissionTooLow,
        ) && post == pre,
{
}

/// Fully unbonding and withdrawing a stash removes its identity-registry
/// entry: afterwards the token is free, and neither the stash nor its
/// controller is bonded.
pub proof fn lemma_withdraw_frees_token(
    pre: Staking,
    post: Staking,
    controller: AccountId,
    t: CmixId,
    r: Result<(), Error>,
)
    requires
        pre.wf(),
        withdraw_post(pre, post, controller, r),
        pre.is_controller(controller),
        pre.ledgers@[controller].cmix_id == Some(t),
        pre.ledgers@[controller].active + chunks_total(
            chunks_still_locked(pre.ledgers@[controller].unlocking@, pre.current_era),
        ) == 0,
    ensures
        !post.cmix_id_taken(t),
        !post.is_controller(controller),
        !post.is_stash(pre.ledgers@[controller].stash),
{
}

/// Reward floor: a list of credits never leaves a credited validator below
/// one point — the first touch grants the bonus point, and later credits only
/// add.
pub proof fn lemma_reward_keeps_floor(m: Map<u64, u32>, total: u32, list: Seq<(u64, u32)>)
    requires
        forall|v: u64| #[trigger] m.contains_key(v) ==> m[v] >= 1,
    ensures
        forall|v: u64| #[trigger]
            reward_seq(m, total, list).0.contains_key(v) ==> reward_seq(m, total, list).0[v] >= 1,
    decreases list.len(),
{
    if list.len() > 0 {
        let m1 = reward_one_map(m, list[0].0, list[0].1);
        let t1 = crate::points::reward_one_total(m, total, list[0].0, list[0].1);
        assert(forall|v: u64| #[trigger] m1.contains_key(v) ==> m1[v] >= 1);
        lemma_reward_keeps_floor(m1, t1, list.drop_first());
        assert(reward_seq(m, total, list) == reward_seq(m1, t1, list.drop_first()));
    }
}

/// Deduction floor: a deduction never drops a credited validator below one
/// point, and it never creates an entry for an untouched validator.
pub proof fn lemma_deduct_keeps_floor(m: Map<u64, u32>, list: Seq<(u64, u32)>)
    requires
        forall|v: u64| #[trigger] m.contains_key(v) ==> m[v] >= 1,
    ensures
        forall|v: u64| #[trigger]
            deduct_seq(m, list).contains_key(v) ==> deduct_seq(m, list)[v] >= 1,
        deduct_seq(m, list).dom() == m.dom(),
    decreases list.len(),
{
    if list.len() == 0 {
    } else {
        let m1 = deduct_one_map(m, list[0].0, list[0].1);
        assert(forall|v: u64| #[trigger] m1.contains_key(v) ==> m1[v] >= 1);
        assert(m1.dom() =~= m.dom());
        lemma_deduct_keeps_floor(m1, list.drop_first());
    }
}

/// Custody exclusion, exposure side: a custody-classified nominator's stake
/// never appears in a validator's ordinary-exposure list.
pub proof fn lemma_custody_never_exposed(
    e: Exposure,
    validator: AccountId,
    voters: Seq<(AccountId, Balance)>,
    custody: Set<AccountId>,
)
    requires
        exposure_matches(e, validator, voters, custody),
    ensures
        forall|j: int|
            0 <= j < e.others@.len() ==> !custody.contains((#[trigger] e.others@[j]).who),
{
    lemma_others_excludes_custody(validator, voters, custody);
}

proof fn lemma_slash_map_other(m: Map<u64, Balance>, who: AccountId, amount: Balance, other: AccountId)
    requires
        other != who,
    ensures
        slash_map(m, who, amount).contains_key(other) == m.contains_key(other),
        m.contains_key(other) ==> slash_map(m, who, amount)[other] == m[other],
{
}

proof fn lemma_slash_others_skips_custody(
    m: Map<u64, Balance>,
    others: Seq<crate::exposure::IndividualExposure>,
    fraction_parts: u32,
    custody: Set<AccountId>,
    who: AccountId,
)
    requires
        custody.contains(who),
    ensures
        slash_others(m, others, fraction_parts, custody).contains_key(who) == m.contains_key(who),
        m.contains_key(who) ==> slash_others(m, others, fraction_parts, custody)[who] == m[who],
    decreases others.len(),
{
    if others.len() > 0 {
        let m1 = if custody.contains(others[0].who) {
            m
        } else {
            slash_map(
                m,
                others[0].who,
                crate::perbill::scaled_by_parts(
                    others[0].value as int,
                    fraction_parts as int,
                ) as u64,
            )
        };
        if !custody.contains(others[0].who) {
            assert(others[0].who != who);
            lemma_slash_map_other(
                m,
                others[0].who,
                crate::perbill::scaled_by_parts(
                    others[0].value as int,
                    fraction_parts as int,
                ) as u64,
                who,
            );
        }
        lemma_slash_others_skips_custody(m1, others.drop_first(), fraction_parts, custody, who);
    }
}

/// Custody exclusion, slashing side: a slash never touches the balance of a
/// custody-classified account — neither as the offending validator (the whole
/// offence is exempted) nor as an exposed nominator.
pub proof fn lemma_custody_not_slashed(
    pre: Staking,
    post: Staking,
    era: EraIndex,
    stash: AccountId,
    fraction: crate::perbill::Perbill,
    who: AccountId,
)
    requires
        crate::staking::slash_post(pre, post, era, stash, fraction),
        pre.is_custody(who),
    ensures
        post.balance_of(who) == pre.balance_of(who),
{
    if !pre.is_custody(stash) && pre.eras@.contains_key(era as u64)
        && pre.eras@[era as u64].stakers@.contains_key(stash) {
        let exp = pre.eras@[era as u64].stakers@[stash];
        let own_loss = crate::perbill::scaled_by_parts(exp.own as int, fraction.parts as int) as u64;
        let m1 = slash_map(pre.balances@, stash, own_loss);
        assert(stash != who);
        lemma_slash_map_other(pre.balances@, stash, own_loss, who);
        lemma_slash_others_skips_custody(
            m1,
            exp.others@,
            fraction.parts,
            pre.custody_accounts@.dom(),
            who,
        );
    }
}

proof fn lemma_slash_others_untouched(
    m: Map<u64, Balance>,
    others: Seq<crate::exposure::IndividualExposure>,
    fraction_parts: u32,
    custody: Set<AccountId>,
    who: AccountId,
)
    requires
        forall|j: int| 0 <= j < others.len() ==> (#[trigger] others[j]).who != who,
    ensures
        slash_others(m, others, fraction_parts, custody).contains_key(who) == m.contains_key(who),
        m.contains_key(who) ==> slash_others(m, others, fraction_parts, custody)[who] == m[who],
    decreases others.len(),
{
    if others.len() > 0 {
        let m1 = if custody.contains(others[0].who) {
            m
        } else {
            slash_map(
                m,
                others[0].who,
                crate::perbill::scaled_by_parts(
                    others[0].value as int,
                    fraction_parts as int,
                ) as u64,
            )
        };
        assert(forall|j: int|
            0 <= j < others.drop_first().len() ==> (#[trigger] others.drop_first()[j]).who != who);
        lemma_slash_others_untouched(m1, others.drop_first(), fraction_parts, custody, who);
    }
}

/// Custody exclusion, counterpart: under the same offence, an
/// otherwise-identical stash that is not custody-classified does lose
/// balance — strictly, whenever it has any and the slash rounds to at least
/// one unit. (The validator never appears among its own ordinary exposures,
/// as every stored snapshot guarantees.)
pub proof fn lemma_non_custody_stash_is_slashed(
    pre: Staking,
    post: Staking,
    era: EraIndex,
    stash: AccountId,
    fraction: crate::perbill::Perbill,
)
    requires
        crate::staking::slash_post(pre, post, era, stash, fraction),
        fraction.wf(),
        !pre.is_custody(stash),
        pre.eras@.contains_key(era as u64),
        pre.eras@[era as u64].stakers@.contains_key(stash),
        forall|j: int|
            0 <= j < pre.eras@[era as u64].stakers@[stash].others@.len() ==> (
            #[trigger] pre.eras@[era as u64].stakers@[stash].others@[j]).who != stash,
        crate::perbill::scaled_by_parts(
            pre.eras@[era as u64].stakers@[stash].own as int,
            fraction.parts as int,
        ) >= 1,
        pre.balance_of(stash) > 0,
    ensures
        post.balance_of(stash) < pre.balance_of(stash),
{
    let exp = pre.eras@[era as u64].stakers@[stash];
    assert(crate::perbill::scaled_by_parts(exp.own as int, fraction.parts as int) <= exp.own) by {
        vstd::arithmetic::mul::lemma_mul_inequality(
            fraction.parts as int,
            crate::perbill::ACCURACY as int,
            exp.own as int,
        );
        vstd::arithmetic::mul::lemma_mul_is_commutative(exp.own as int, fraction.parts as int);
        vstd::arithmetic::mul::lemma_mul_is_commutative(
            exp.own as int,
            crate::perbill::ACCURACY as int,
        );
        vstd::arithmetic::div_mod::lemma_div_is_ordered(
            exp.own as int * fraction.parts as int,
            exp.own as int * crate::perbill::ACCURACY as int,
            crate::perbill::ACCURACY as int,
        );
        vstd::arithmetic::div_mod::lemma_div_multiples_vanish(
            exp.own as int,
            crate::perbill::ACCURACY as int,
        );
    }
    let own_loss = crate::perbill::scaled_by_parts(exp.own as int, fraction.parts as int) as u64;
    let m1 = slash_map(pre.balances@, stash, own_loss);
    lemma_slash_others_untouched(
        m1,
        exp.others@,
        fraction.parts,
        pre.custody_accounts@.dom(),
        stash,
    );
}

/// Payout idempotence: once a payout for `(era, stash)` has succeeded, an
/// identical second call is rejected with `AlreadyClaimed` and changes
/// nothing — the balance increase is applied exactly once.
pub proof fn lemma_payout_idempotent(
    s0: Staking,
    s1: Staking,
    s2: Staking,
    era: EraIndex,
    stash: AccountId,
    r1: Result<(), Error>,
    r2: Result<(), Error>,
)
    requires
        s0.wf(),
        payout_post(s0, s1, era, stash, r1),
        r1 is Ok,
        payout_post(s1, s2, era, stash, r2),
    ensures
        r2 == Err::<(), Error>(Error::AlreadyClaimed),
        s2 == s1,
{
    let c = s0.bonded@[stash];
    let claimed = s1.ledgers@[c].claimed_rewards@;
    assert(claimed == s0.ledgers@[c].claimed_rewards@.push(era));
    assert(claimed[claimed.len() - 1] == era);
    assert(claimed.contains(era));
}

} // verus!
