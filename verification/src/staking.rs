//! The staking state and its operations: bonding, validating intent, the
//! cmix-identity registry and its transfer protocol, era reward points,
//! exposures, payout and slashing.
//!
//! All state lives in one value of [`Staking`], which models the persistent
//! store of a validating node. Every operation checks all of its conditions
//! before mutating anything, so a failed call leaves the state untouched.

use crate::exposure::{exposure_matches, Exposure, Support};
use crate::kvstore::KvStore;
use crate::ledger::{chunks_still_locked, chunks_total, Nominations, StakingLedger, ValidatorPrefs};
use crate::migrations::MigrationCells;
use crate::perbill::Perbill;
use crate::points::{deduct_seq, reward_seq, EraRewardPoints};
use crate::{AccountId, Balance, CmixId, EraIndex};
use vstd::pervasive::unreached;
use vstd::prelude::*;

verus! {

/// Why a staking call was rejected. Every check is evaluated before any
/// mutation, so an error means the state is exactly as it was.
#[derive(Clone, Copy, PartialEq, Eq, Structural, Debug)]
pub enum Error {
    /// The stash is already bonded.
    AlreadyBonded,
    /// The controller is already paired with a ledger.
    AlreadyPaired,
    /// The caller is not a controller account.
    NotController,
    /// The account in question is not a stash account.
    NotStash,
    /// A validator must register a cmix identity before validating.
    ValidatorMustHaveCmixId,
    /// The declared commission is below the configured minimum.
    ValidatorCommissionTooLow,
    /// The cmix identity is already registered to another stash.
    ValidatorCmixIdNotUnique,
    /// The stash already holds a cmix identity.
    StashAlreadyHasCmixId,
    /// The stash holds no cmix identity.
    StashNoCmixId,
    /// The stash has an active validate intent.
    StashValidating,
    /// The stash is in the active validator set.
    StashActiveValidator,
    /// The stash is in the elected validator set.
    StashElectedValidator,
    /// The election provider reports an election in progress.
    ElectionOngoing,
    /// Rewards for this era have already been claimed for this stash.
    AlreadyClaimed,
    /// The era is not known, or its payout has not been recorded yet.
    InvalidEraToReward,
}

/// Per-era records: the exposure snapshot, the commission snapshot, the
/// reward points and the recorded era payout.
pub struct EraInfo {
    /// Exposure of each elected validator, snapshotted at era start.
    pub stakers: KvStore<Exposure>,
    /// Validator preferences, snapshotted at era start.
    pub prefs: KvStore<ValidatorPrefs>,
    /// Reward points accumulated during the era.
    pub points: EraRewardPoints,
    /// The total payout recorded when the era ended, if it has.
    pub payout: Option<Balance>,
}

impl EraInfo {
    pub open spec fn wf(self) -> bool {
        &&& self.stakers.wf()
        &&& self.prefs.wf()
        &&& self.points.wf()
        &&& forall|v: u64| #[trigger] self.prefs@.contains_key(v) ==> self.prefs@[v].wf()
    }

    /// Fresh, empty era records.
    pub fn new() -> (r: EraInfo)
        ensures
            r.wf(),
            r.stakers@ == Map::<u64, Exposure>::empty(),
            r.prefs@ == Map::<u64, ValidatorPrefs>::empty(),
            r.points.individual@ == Map::<u64, u32>::empty(),
            r.points.total == 0,
            r.payout is None,
    {
        EraInfo {
            stakers: KvStore::new(),
            prefs: KvStore::new(),
            points: EraRewardPoints::new(),
            payout: None,
        }
    }
}

/// The staking core's state: the persistent store of one validating node.
pub struct Staking {
    /// The current era.
    pub current_era: EraIndex,
    /// Eras an unbonded chunk must wait before withdrawal.
    pub bonding_duration: EraIndex,
    /// The configured commission floor for validate calls.
    pub min_validator_commission: Perbill,
    /// Points granted to the block producer for each block.
    pub block_points: u32,
    /// Whether the election provider reports an election in progress.
    pub election_ongoing: bool,
    /// Stash account to controller account.
    pub bonded: KvStore<AccountId>,
    /// Controller account to staking ledger.
    pub ledgers: KvStore<StakingLedger>,
    /// Cmix identity token to the stash that holds it: the inverse of the
    /// ledgers' `cmix_id` field.
    pub cmix_ids: KvStore<AccountId>,
    /// Stash accounts with an active validate intent, with their preferences.
    pub validators: KvStore<ValidatorPrefs>,
    /// Stash accounts with an active nominate intent.
    pub nominators: KvStore<Nominations>,
    /// Accounts classified as custody accounts.
    pub custody_accounts: KvStore<bool>,
    /// The active validator set of the ongoing era.
    pub session_validators: Vec<AccountId>,
    /// The validator set elected for the next era.
    pub queued_elected: Vec<AccountId>,
    /// Free balance of each account (the currency ledger as this core sees
    /// it).
    pub balances: KvStore<Balance>,
    /// Per-era records, keyed by era index.
    pub eras: KvStore<EraInfo>,
    /// Running total handed to the reward-pool handler on payouts.
    pub reward_handler_total: Balance,
    /// Cells only the storage migrations touch.
    pub migration: MigrationCells,
}

impl Staking {
    /// Whether `who` is a bonded stash account.
    pub open spec fn is_stash(self, who: AccountId) -> bool {
        self.bonded@.contains_key(who)
    }

    /// Whether `who` is a controller account paired with a ledger.
    pub open spec fn is_controller(self, who: AccountId) -> bool {
        self.ledgers@.contains_key(who)
    }

    /// The ledger of a bonded stash.
    pub open spec fn ledger_of_stash(self, stash: AccountId) -> StakingLedger {
        self.ledgers@[self.bonded@[stash]]
    }

    /// The identity token a bonded stash holds, if any.
    pub open spec fn stash_cmix_id(self, stash: AccountId) -> Option<CmixId> {
        self.ledger_of_stash(stash).cmix_id
    }

    /// Whether an identity token is registered to some stash.
    pub open spec fn cmix_id_taken(self, token: CmixId) -> bool {
        self.cmix_ids@.contains_key(token)
    }

    /// Whether `who` has an active validate intent.
    pub open spec fn is_validating(self, who: AccountId) -> bool {
        self.validators@.contains_key(who)
    }

    /// Whether `who` is in the active validator set.
    pub open spec fn is_session_validator(self, who: AccountId) -> bool {
        self.session_validators@.contains(who)
    }

    /// Whether `who` is in the set elected for the next era.
    pub open spec fn is_queued_elected(self, who: AccountId) -> bool {
        self.queued_elected@.contains(who)
    }

    /// Whether `who` is classified as a custody account.
    pub open spec fn is_custody(self, who: AccountId) -> bool {
        self.custody_accounts@.contains_key(who)
    }

    /// Free balance of `who`; an absent account holds nothing.
    pub open spec fn balance_of(self, who: AccountId) -> Balance {
        if self.balances@.contains_key(who) {
            self.balances@[who]
        } else {
            0
        }
    }

    /// Reward-point map of an era; empty while the era has no record.
    pub open spec fn era_points_map(self, era: EraIndex) -> Map<u64, u32> {
        if self.eras@.contains_key(era as u64) {
            self.eras@[era as u64].points.individual@
        } else {
            Map::empty()
        }
    }

    /// Total reward points of an era.
    pub open spec fn era_points_total(self, era: EraIndex) -> u32 {
        if self.eras@.contains_key(era as u64) {
            self.eras@[era as u64].points.total
        } else {
            0
        }
    }

    /// Well-formed state: the stores have unique keys, stash and controller
    /// records mirror each other one-to-one, the identity registry is exactly
    /// the inverse of the ledgers' tokens, intents belong to bonded stashes,
    /// and every era record is internally consistent.
    pub open spec fn wf(self) -> bool {
        &&& self.bonded.wf()
        &&& self.ledgers.wf()
        &&& self.cmix_ids.wf()
        &&& self.validators.wf()
        &&& self.nominators.wf()
        &&& self.custody_accounts.wf()
        &&& self.balances.wf()
        &&& self.eras.wf()
        &&& self.min_validator_commission.wf()
        &&& forall|s: u64| #[trigger]
            self.bonded@.contains_key(s) ==> self.ledgers@.contains_key(self.bonded@[s])
                && self.ledgers@[self.bonded@[s]].stash == s
        &&& forall|c: u64| #[trigger]
            self.ledgers@.contains_key(c) ==> self.ledgers@[c].wf() && self.bonded@.contains_key(
                self.ledgers@[c].stash,
            ) && self.bonded@[self.ledgers@[c].stash] == c
        &&& forall|t: u64| #[trigger]
            self.cmix_ids@.contains_key(t) ==> self.bonded@.contains_key(self.cmix_ids@[t])
                && self.ledgers@[self.bonded@[self.cmix_ids@[t]]].cmix_id == Some(t)
        &&& forall|c: u64| #[trigger]
            self.ledgers@.contains_key(c) ==> (self.ledgers@[c].cmix_id matches Some(t)
                ==> self.cmix_ids@.contains_key(t) && self.cmix_ids@[t] == self.ledgers@[c].stash)
        &&& forall|s: u64| #[trigger]
            self.validators@.contains_key(s) ==> self.bonded@.contains_key(s)
                && self.validators@[s].wf()
        &&& forall|s: u64| #[trigger] self.nominators@.contains_key(s) ==> self.bonded@.contains_key(s)
        &&& forall|e: u64| #[trigger] self.eras@.contains_key(e) ==> self.eras@[e].wf()
    }

    /// A fresh, empty state with the given configuration.
    pub fn new(bonding_duration: EraIndex, min_validator_commission: Perbill, block_points: u32)
        -> (r: Staking)
        requires
            min_validator_commission.wf(),
        ensures
            r.wf(),
            r.current_era == 0,
            r.bonding_duration == bonding_duration,
            r.min_validator_commission == min_validator_commission,
            r.block_points == block_points,
            !r.election_ongoing,
            r.bonded@ == Map::<u64, AccountId>::empty(),
            r.ledgers@ == Map::<u64, StakingLedger>::empty(),
            r.cmix_ids@ == Map::<u64, AccountId>::empty(),
            r.validators@ == Map::<u64, ValidatorPrefs>::empty(),
            r.nominators@ == Map::<u64, Nominations>::empty(),
            r.custody_accounts@ == Map::<u64, bool>::empty(),
            r.session_validators@ == Seq::<u64>::empty(),
            r.queued_elected@ == Seq::<u64>::empty(),
            r.balances@ == Map::<u64, Balance>::empty(),
            r.eras@ == Map::<u64, EraInfo>::empty(),
            r.reward_handler_total == 0,
            r.migration.version == crate::migrations::Releases::V8_0_0,
            r.migration.counter_for_validators == 0,
            r.migration.counter_for_nominators == 0,
            r.migration.sorted_list@ == Seq::<u64>::empty(),
    {
        let r = Staking {
            current_era: 0,
            bonding_duration,
            min_validator_commission,
            block_points,
            election_ongoing: false,
            bonded: KvStore::new(),
            ledgers: KvStore::new(),
            cmix_ids: KvStore::new(),
            validators: KvStore::new(),
            nominators: KvStore::new(),
            custody_accounts: KvStore::new(),
            session_validators: Vec::new(),
            queued_elected: Vec::new(),
            balances: KvStore::new(),
            eras: KvStore::new(),
            reward_handler_total: 0,
            migration: MigrationCells::new(),
        };
        proof {
            assert(r.session_validators@ =~= Seq::<u64>::empty());
            assert(r.queued_elected@ =~= Seq::<u64>::empty());
        }
        r
    }

    /// Set the free balance of an account (the currency ledger is an outside
    /// collaborator; this models its answer).
    pub fn set_balance(&mut self, who: AccountId, amount: Balance)
        requires
            old(self).wf(),
        ensures
            final(self).wf(),
            final(self).balances@ == old(self).balances@.insert(who, amount),
            *final(self) == (Staking { balances: final(self).balances, ..*old(self) }),
    {
        self.balances.insert(who, amount);
    }

    /// Free balance of an account.
    pub fn balance(&self, who: AccountId) -> (r: Balance)
        requires
            self.wf(),
        ensures
            r == self.balance_of(who),
    {
        match self.balances.get(who) {
            Some(b) => *b,
            None => 0,
        }
    }

    /// Classify an account as a custody account.
    pub fn add_custody_account(&mut self, who: AccountId)
        requires
            old(self).wf(),
        ensures
            final(self).wf(),
            final(self).custody_accounts@ == old(self).custody_accounts@.insert(who, true),
            *final(self) == (Staking {
                custody_accounts: final(self).custody_accounts,
                ..*old(self)
            }),
    {
        self.custody_accounts.insert(who, true);
    }

    /// Whether an account is classified as a custody account.
    pub fn is_custody_account(&self, who: AccountId) -> (r: bool)
        ensures
            r == self.is_custody(who),
    {
        self.custody_accounts.contains_key(who)
    }

    /// Points granted to the block producer for each block.
    pub fn get_block_points(&self) -> (r: u32)
        ensures
            r == self.block_points,
    {
        self.block_points
    }

    /// Record what the election provider reports: whether an election is in
    /// progress.
    pub fn set_election_ongoing(&mut self, ongoing: bool)
        requires
            old(self).wf(),
        ensures
            final(self).wf(),
            *final(self) == (Staking { election_ongoing: ongoing, ..*old(self) }),
    {
        self.election_ongoing = ongoing;
    }

    /// Record the active validator set handed over by session rotation.
    pub fn set_session_validators(&mut self, validators: Vec<AccountId>)
        requires
            old(self).wf(),
        ensures
            final(self).wf(),
            *final(self) == (Staking { session_validators: final(self).session_validators, ..*old(self) }),
            final(self).session_validators@ == validators@,
    {
        self.session_validators = validators;
    }

    /// Advance to the given era.
    pub fn set_current_era(&mut self, era: EraIndex)
        requires
            old(self).wf(),
        ensures
            final(self).wf(),
            *final(self) == (Staking { current_era: era, ..*old(self) }),
    {
        self.current_era = era;
    }
}

/// What `bond` does: it fails on an already-bonded stash, an already-paired
/// controller or a taken identity token, in that order, and otherwise creates
/// the ledger with all funds active and registers the token, if one was
/// given.
pub open spec fn bond_post(
    pre: Staking,
    post: Staking,
    stash: AccountId,
    controller: AccountId,
    value: Balance,
    cmix_id: Option<CmixId>,
    r: Result<(), Error>,
) -> bool {
    if pre.is_stash(stash) {
        r == Err::<(), Error>(Error::AlreadyBonded) && post == pre
    } else if pre.is_controller(controller) {
        r == Err::<(), Error>(Error::AlreadyPaired) && post == pre
    } else if cmix_id matches Some(t) && pre.cmix_id_taken(t) {
        r == Err::<(), Error>(Error::ValidatorCmixIdNotUnique) && post == pre
    } else {
        &&& r == Ok::<(), Error>(())
        &&& post.bonded@ == pre.bonded@.insert(stash, controller)
        &&& post.ledgers@ == pre.ledgers@.insert(controller, post.ledgers@[controller])
        &&& post.ledgers@[controller].stash == stash
        &&& post.ledgers@[controller].total == value
        &&& post.ledgers@[controller].active == value
        &&& post.ledgers@[controller].unlocking@ == Seq::<crate::ledger::UnlockChunk>::empty()
        &&& post.ledgers@[controller].claimed_rewards@ == Seq::<EraIndex>::empty()
        &&& post.ledgers@[controller].cmix_id == cmix_id
        &&& post.cmix_ids@ == (if cmix_id is Some {
            pre.cmix_ids@.insert(cmix_id->Some_0, stash)
        } else {
            pre.cmix_ids@
        })
        &&& post == (Staking {
            bonded: post.bonded,
            ledgers: post.ledgers,
            cmix_ids: post.cmix_ids,
            ..pre
        })
    }
}

impl Staking {
    /// Bond `value` from `stash`, controlled by `controller`, optionally
    /// registering the identity token `cmix_id`.
    pub fn bond(
        &mut self,
        stash: AccountId,
        controller: AccountId,
        value: Balance,
        cmix_id: Option<CmixId>,
    ) -> (r: Result<(), Error>)
        requires
            old(self).wf(),
        ensures
            final(self).wf(),
            bond_post(*old(self), *final(self), stash, controller, value, cmix_id, r),
    {
        if self.bonded.contains_key(stash) {
            return Err(Error::AlreadyBonded);
        }
        if self.ledgers.contains_key(controller) {
            return Err(Error::AlreadyPaired);
        }
        if let Some(t) = cmix_id {
            if self.cmix_ids.contains_key(t) {
                return Err(Error::ValidatorCmixIdNotUnique);
            }
        }
        let ledger = StakingLedger::new_bonded(stash, value, cmix_id);
        self.bonded.insert(stash, controller);
        self.ledgers.insert(controller, ledger);
        if let Some(t) = cmix_id {
            self.cmix_ids.insert(t, stash);
        }
        Ok(())
    }
}

/// What `bond_extra` does: the active stake and the total both grow by the
/// requested amount, capped only where the total would overflow.
pub open spec fn bond_extra_post(
    pre: Staking,
    post: Staking,
    controller: AccountId,
    max_additional: Balance,
    r: Result<(), Error>,
) -> bool {
    if !pre.is_controller(controller) {
        r == Err::<(), Error>(Error::NotController) && post == pre
    } else {
        let l = pre.ledgers@[controller];
        let extra: int = if max_additional <= u64::MAX - l.total {
            max_additional as int
        } else {
            u64::MAX - l.total
        };
        &&& r == Ok::<(), Error>(())
        &&& post.ledgers@ == pre.ledgers@.insert(
            controller,
            (StakingLedger {
                total: (l.total + extra) as u64,
                active: (l.active + extra) as u64,
                ..l
            }),
        )
        &&& post == (Staking { ledgers: post.ledgers, ..pre })
    }
}

/// What `unbond` does: up to `value` moves from the active stake into an
/// unlocking chunk maturing a bonding duration from now; the request is
/// silently capped at the active stake.
pub open spec fn unbond_post(
    pre: Staking,
    post: Staking,
    controller: AccountId,
    value: Balance,
    r: Result<(), Error>,
) -> bool {
    if !pre.is_controller(controller) {
        r == Err::<(), Error>(Error::NotController) && post == pre
    } else {
        let l = pre.ledgers@[controller];
        let actual: int = if value <= l.active {
            value as int
        } else {
            l.active as int
        };
        let unlock_era = crate::arith::clamp_u32(pre.current_era + pre.bonding_duration);
        &&& r == Ok::<(), Error>(())
        &&& post.ledgers@ == pre.ledgers@.insert(controller, post.ledgers@[controller])
        &&& post.ledgers@.contains_key(controller)
        &&& post.ledgers@[controller].active == l.active - actual
        &&& post.ledgers@[controller].total == l.total
        &&& post.ledgers@[controller].stash == l.stash
        &&& post.ledgers@[controller].cmix_id == l.cmix_id
        &&& post.ledgers@[controller].claimed_rewards == l.claimed_rewards
        &&& post.ledgers@[controller].unlocking@ == (if actual == 0 {
            l.unlocking@
        } else if l.unlocking@.len() > 0 && l.unlocking@.last().era == unlock_era {
            l.unlocking@.update(
                l.unlocking@.len() - 1,
                (crate::ledger::UnlockChunk {
                    value: (l.unlocking@.last().value + actual) as u64,
                    era: unlock_era,
                }),
            )
        } else {
            l.unlocking@.push(crate::ledger::UnlockChunk { value: actual as u64, era: unlock_era })
        })
        &&& post == (Staking { ledgers: post.ledgers, ..pre })
    }
}

/// What `withdraw_unbonded` does: matured chunks are dropped, and a ledger
/// left with nothing at all is destroyed together with the stash's intents
/// and its identity-registry entry.
pub open spec fn withdraw_post(
    pre: Staking,
    post: Staking,
    controller: AccountId,
    r: Result<(), Error>,
) -> bool {
    if !pre.is_controller(controller) {
        r == Err::<(), Error>(Error::NotController) && post == pre
    } else {
        let l = pre.ledgers@[controller];
        let kept = chunks_still_locked(l.unlocking@, pre.current_era);
        let new_total = l.active + chunks_total(kept);
        if new_total == 0 {
            &&& r == Ok::<(), Error>(())
            &&& post.ledgers@ == pre.ledgers@.remove(controller)
            &&& post.bonded@ == pre.bonded@.remove(l.stash)
            &&& post.validators@ == pre.validators@.remove(l.stash)
            &&& post.nominators@ == pre.nominators@.remove(l.stash)
            &&& post.cmix_ids@ == (if l.cmix_id is Some {
                pre.cmix_ids@.remove(l.cmix_id->Some_0)
            } else {
                pre.cmix_ids@
            })
            &&& post == (Staking {
                bonded: post.bonded,
                ledgers: post.ledgers,
                cmix_ids: post.cmix_ids,
                validators: post.validators,
                nominators: post.nominators,
                ..pre
            })
        } else {
            &&& r == Ok::<(), Error>(())
            &&& post.ledgers@ == pre.ledgers@.insert(controller, post.ledgers@[controller])
            &&& post.ledgers@.contains_key(controller)
            &&& post.ledgers@[controller].unlocking@ == kept
            &&& post.ledgers@[controller].total == new_total
            &&& post.ledgers@[controller] == (StakingLedger {
                total: new_total as u64,
                unlocking: post.ledgers@[controller].unlocking,
                ..l
            })
            &&& post == (Staking { ledgers: post.ledgers, ..pre })
        }
    }
}

/// What `validate` does: it demands a registered identity first, then a
/// commission at or above the configured floor, and then records the intent,
/// clearing any nomination.
pub open spec fn validate_post(
    pre: Staking,
    post: Staking,
    controller: AccountId,
    prefs: ValidatorPrefs,
    r: Result<(), Error>,
) -> bool {
    if !pre.is_controller(controller) {
        r == Err::<(), Error>(Error::NotController) && post == pre
    } else if pre.ledgers@[controller].cmix_id is None {
        r == Err::<(), Error>(Error::ValidatorMustHaveCmixId) && post == pre
    } else if prefs.commission.parts < pre.min_validator_commission.parts {
        r == Err::<(), Error>(Error::ValidatorCommissionTooLow) && post == pre
    } else {
        let stash = pre.ledgers@[controller].stash;
        &&& r == Ok::<(), Error>(())
        &&& post.validators@ == pre.validators@.insert(stash, prefs)
        &&& post.nominators@ == pre.nominators@.remove(stash)
        &&& post == (Staking {
            validators: post.validators,
            nominators: post.nominators,
            ..pre
        })
    }
}

/// What `chill` does: both intents of the stash are cleared; ledger balances
/// and the identity are untouched.
pub open spec fn chill_post(
    pre: Staking,
    post: Staking,
    controller: AccountId,
    r: Result<(), Error>,
) -> bool {
    if !pre.is_controller(controller) {
        r == Err::<(), Error>(Error::NotController) && post == pre
    } else {
        let stash = pre.ledgers@[controller].stash;
        &&& r == Ok::<(), Error>(())
        &&& post.validators@ == pre.validators@.remove(stash)
        &&& post.nominators@ == pre.nominators@.remove(stash)
        &&& post == (Staking {
            validators: post.validators,
            nominators: post.nominators,
            ..pre
        })
    }
}

/// What `nominate` does: the targets are recorded for the stash, tagged with
/// the era of submission, and any validate intent is cleared.
pub open spec fn nominate_post(
    pre: Staking,
    post: Staking,
    controller: AccountId,
    targets: Seq<AccountId>,
    r: Result<(), Error>,
) -> bool {
    if !pre.is_controller(controller) {
        r == Err::<(), Error>(Error::NotController) && post == pre
    } else {
        let stash = pre.ledgers@[controller].stash;
        &&& r == Ok::<(), Error>(())
        &&& post.nominators@ == pre.nominators@.insert(stash, post.nominators@[stash])
        &&& post.nominators@.contains_key(stash)
        &&& post.nominators@[stash].targets@ == targets
        &&& post.nominators@[stash].submitted_in == pre.current_era
        &&& post.validators@ == pre.validators@.remove(stash)
        &&& post == (Staking {
            validators: post.validators,
            nominators: post.nominators,
            ..pre
        })
    }
}

/// What `set_cmix_id` does: only a stash that holds no token yet may register
/// one, and only a token no other stash holds.
pub open spec fn set_cmix_id_post(
    pre: Staking,
    post: Staking,
    stash: AccountId,
    token: CmixId,
    r: Result<(), Error>,
) -> bool {
    if !pre.is_stash(stash) {
        r == Err::<(), Error>(Error::NotStash) && post == pre
    } else if pre.stash_cmix_id(stash) is Some {
        r == Err::<(), Error>(Error::StashAlreadyHasCmixId) && post == pre
    } else if pre.cmix_id_taken(token) {
        r == Err::<(), Error>(Error::ValidatorCmixIdNotUnique) && post == pre
    } else {
        let c = pre.bonded@[stash];
        &&& r == Ok::<(), Error>(())
        &&& post.ledgers@ == pre.ledgers@.insert(
            c,
            (StakingLedger { cmix_id: Some(token), ..pre.ledgers@[c] }),
        )
        &&& post.cmix_ids@ == pre.cmix_ids@.insert(token, stash)
        &&& post == (Staking { ledgers: post.ledgers, cmix_ids: post.cmix_ids, ..pre })
    }
}

/// What `transfer_cmix_id` does: the token moves from origin to destination
/// only if both are stashes, the origin holds a token, the destination holds
/// none, and the origin's identity is not consensus-relevant — it is not
/// validating, no election is running, and it is neither in the active nor in
/// the elected validator set. The checks are evaluated in exactly this order.
pub open spec fn transfer_cmix_id_post(
    pre: Staking,
    post: Staking,
    origin: AccountId,
    dest: AccountId,
    r: Result<(), Error>,
) -> bool {
    if !pre.is_stash(origin) {
        r == Err::<(), Error>(Error::NotStash) && post == pre
    } else if !pre.is_stash(dest) {
        r == Err::<(), Error>(Error::NotStash) && post == pre
    } else if pre.stash_cmix_id(origin) is None {
        r == Err::<(), Error>(Error::StashNoCmixId) && post == pre
    } else if pre.stash_cmix_id(dest) is Some {
        r == Err::<(), Error>(Error::StashAlreadyHasCmixId) && post == pre
    } else if pre.is_validating(origin) {
        r == Err::<(), Error>(Error::StashValidating) && post == pre
    } else if pre.election_ongoing {
        r == Err::<(), Error>(Error::ElectionOngoing) && post == pre
    } else if pre.is_session_validator(origin) {
        r == Err::<(), Error>(Error::StashActiveValidator) && post == pre
    } else if pre.is_queued_elected(origin) {
        r == Err::<(), Error>(Error::StashElectedValidator) && post == pre
    } else {
        let t = pre.stash_cmix_id(origin)->Some_0;
        let oc = pre.bonded@[origin];
        let dc = pre.bonded@[dest];
        &&& r == Ok::<(), Error>(())
        &&& post.ledgers@ == pre.ledgers@.insert(
            oc,
            (StakingLedger { cmix_id: None, ..pre.ledgers@[oc] }),
        ).insert(dc, (StakingLedger { cmix_id: Some(t), ..pre.ledgers@[dc] }))
        &&& post.cmix_ids@ == pre.cmix_ids@.insert(t, dest)
        &&& post == (Staking { ledgers: post.ledgers, cmix_ids: post.cmix_ids, ..pre })
    }
}

impl Staking {
    /// Add more funds to an existing ledger's active stake.
    pub fn bond_extra(&mut self, controller: AccountId, max_additional: Balance) -> (r: Result<
        (),
        Error,
    >)
        requires
            old(self).wf(),
        ensures
            final(self).wf(),
            bond_extra_post(*old(self), *final(self), controller, max_additional, r),
    {
        if !self.ledgers.contains_key(controller) {
            return Err(Error::NotController);
        }
        let l_opt = self.ledgers.remove(controller);
        let mut l = match l_opt {
            Some(l) => l,
            None => unreached(),
        };
        let headroom = u64::MAX - l.total;
        let extra = if max_additional <= headroom {
            max_additional
        } else {
            headroom
        };
        l.add_stake(extra);
        self.ledgers.insert(controller, l);
        proof {
            assert(final(self).ledgers@ =~= old(self).ledgers@.insert(
                controller,
                final(self).ledgers@[controller],
            ));
        }
        Ok(())
    }

    /// Schedule up to `value` of the active stake to unlock a bonding
    /// duration from now.
    pub fn unbond(&mut self, controller: AccountId, value: Balance) -> (r: Result<(), Error>)
        requires
            old(self).wf(),
        ensures
            final(self).wf(),
            unbond_post(*old(self), *final(self), controller, value, r),
    {
        if !self.ledgers.contains_key(controller) {
            return Err(Error::NotController);
        }
        let l_opt = self.ledgers.remove(controller);
        let mut l = match l_opt {
            Some(l) => l,
            None => unreached(),
        };
        let unlock_era = if self.bonding_duration > u32::MAX - self.current_era {
            u32::MAX
        } else {
            self.current_era + self.bonding_duration
        };
        let _actual = l.unbond_stake(value, unlock_era);
        self.ledgers.insert(controller, l);
        proof {
            assert(final(self).ledgers@ =~= old(self).ledgers@.insert(
                controller,
                final(self).ledgers@[controller],
            ));
        }
        Ok(())
    }

    /// Remove matured unlocking chunks; destroy the ledger, the intents and
    /// the identity-registry entry when nothing bonded is left at all.
    pub fn withdraw_unbonded(&mut self, controller: AccountId, _num_slashing_spans: u32) -> (r:
        Result<(), Error>)
        requires
            old(self).wf(),
        ensures
            final(self).wf(),
            withdraw_post(*old(self), *final(self), controller, r),
    {
        if !self.ledgers.contains_key(controller) {
            return Err(Error::NotController);
        }
        let l_opt = self.ledgers.remove(controller);
        let mut l = match l_opt {
            Some(l) => l,
            None => unreached(),
        };
        l.remove_matured(self.current_era);
        if l.total == 0 {
            proof {
                crate::ledger::lemma_chunks_total_nonneg(l.unlocking@);
            }
            self.bonded.remove(l.stash);
            self.validators.remove(l.stash);
            self.nominators.remove(l.stash);
            if let Some(t) = l.cmix_id {
                self.cmix_ids.remove(t);
            }
        } else {
            self.ledgers.insert(controller, l);
            proof {
                assert(final(self).ledgers@ =~= old(self).ledgers@.insert(
                    controller,
                    final(self).ledgers@[controller],
                ));
            }
        }
        Ok(())
    }

    /// Declare the intent to validate with the given preferences.
    pub fn validate(&mut self, controller: AccountId, prefs: ValidatorPrefs) -> (r: Result<
        (),
        Error,
    >)
        requires
            old(self).wf(),
            prefs.wf(),
        ensures
            final(self).wf(),
            validate_post(*old(self), *final(self), controller, prefs, r),
    {
        let stash: AccountId = match self.ledgers.get(controller) {
            Some(l) => {
                if l.cmix_id.is_none() {
                    return Err(Error::ValidatorMustHaveCmixId);
                }
                l.stash
            },
            None => {
                return Err(Error::NotController);
            },
        };
        if prefs.commission.parts < self.min_validator_commission.parts {
            return Err(Error::ValidatorCommissionTooLow);
        }
        self.validators.insert(stash, prefs);
        self.nominators.remove(stash);
        Ok(())
    }

    /// Clear any validate or nominate intent of the stash.
    pub fn chill(&mut self, controller: AccountId) -> (r: Result<(), Error>)
        requires
            old(self).wf(),
        ensures
            final(self).wf(),
            chill_post(*old(self), *final(self), controller, r),
    {
        let stash: AccountId = match self.ledgers.get(controller) {
            Some(l) => l.stash,
            None => {
                return Err(Error::NotController);
            },
        };
        self.validators.remove(stash);
        self.nominators.remove(stash);
        Ok(())
    }

    /// Declare the intent to nominate the given targets.
    pub fn nominate(&mut self, controller: AccountId, targets: Vec<AccountId>) -> (r: Result<
        (),
        Error,
    >)
        requires
            old(self).wf(),
        ensures
            final(self).wf(),
            nominate_post(*old(self), *final(self), controller, targets@, r),
    {
        let stash: AccountId = match self.ledgers.get(controller) {
            Some(l) => l.stash,
            None => {
                return Err(Error::NotController);
            },
        };
        let submitted_in = self.current_era;
        self.nominators.insert(stash, Nominations { targets, submitted_in });
        self.validators.remove(stash);
        Ok(())
    }

    /// Register an identity token for a stash that holds none.
    pub fn set_cmix_id(&mut self, stash: AccountId, token: CmixId) -> (r: Result<(), Error>)
        requires
            old(self).wf(),
        ensures
            final(self).wf(),
            set_cmix_id_post(*old(self), *final(self), stash, token, r),
    {
        let controller: AccountId = match self.bonded.get(stash) {
            Some(c) => *c,
            None => {
                return Err(Error::NotStash);
            },
        };
        match self.ledgers.get(controller) {
            Some(l) => {
                if l.cmix_id.is_some() {
                    return Err(Error::StashAlreadyHasCmixId);
                }
            },
            None => unreached(),
        }
        if self.cmix_ids.contains_key(token) {
            return Err(Error::ValidatorCmixIdNotUnique);
        }
        let l_opt = self.ledgers.remove(controller);
        let mut l = match l_opt {
            Some(l) => l,
            None => unreached(),
        };
        l.cmix_id = Some(token);
        self.ledgers.insert(controller, l);
        self.cmix_ids.insert(token, stash);
        proof {
            assert(final(self).ledgers@ =~= old(self).ledgers@.insert(
                controller,
                (StakingLedger { cmix_id: Some(token), ..old(self).ledgers@[controller] }),
            ));
        }
        Ok(())
    }

    /// Move the identity token of `origin` to `dest`, atomically, provided no
    /// check of the ordered sequence blocks it.
    pub fn transfer_cmix_id(&mut self, origin: AccountId, dest: AccountId) -> (r: Result<
        (),
        Error,
    >)
        requires
            old(self).wf(),
        ensures
            final(self).wf(),
            transfer_cmix_id_post(*old(self), *final(self), origin, dest, r),
    {
        let origin_controller: AccountId = match self.bonded.get(origin) {
            Some(c) => *c,
            None => {
                return Err(Error::NotStash);
            },
        };
        let dest_controller: AccountId = match self.bonded.get(dest) {
            Some(c) => *c,
            None => {
                return Err(Error::NotStash);
            },
        };
        let token: CmixId = match self.ledgers.get(origin_controller) {
            Some(l) => {
                match l.cmix_id {
                    Some(t) => t,
                    None => {
                        return Err(Error::StashNoCmixId);
                    },
                }
            },
            None => unreached(),
        };
        match self.ledgers.get(dest_controller) {
            Some(l) => {
                if l.cmix_id.is_some() {
                    return Err(Error::StashAlreadyHasCmixId);
                }
            },
            None => unreached(),
        }
        if self.validators.contains_key(origin) {
            return Err(Error::StashValidating);
        }
        if self.election_ongoing {
            return Err(Error::ElectionOngoing);
        }
        if vec_contains(&self.session_validators, origin) {
            return Err(Error::StashActiveValidator);
        }
        if vec_contains(&self.queued_elected, origin) {
            return Err(Error::StashElectedValidator);
        }
        let lo_opt = self.ledgers.remove(origin_controller);
        let mut lo = match lo_opt {
            Some(l) => l,
            None => unreached(),
        };
        lo.cmix_id = None;
        self.ledgers.insert(origin_controller, lo);
        let ld_opt = self.ledgers.remove(dest_controller);
        let mut ld = match ld_opt {
            Some(l) => l,
            None => unreached(),
        };
        ld.cmix_id = Some(token);
        self.ledgers.insert(dest_controller, ld);
        self.cmix_ids.insert(token, dest);
        proof {
            assert(final(self).ledgers@ =~= old(self).ledgers@.insert(
                origin_controller,
                (StakingLedger { cmix_id: None, ..old(self).ledgers@[origin_controller] }),
            ).insert(
                dest_controller,
                (StakingLedger {
                    cmix_id: Some(token),
                    ..old(self).ledgers@[dest_controller]
                }),
            ));
        }
        Ok(())
    }
}

/// A balance map after a deposit: `amount` is added to `who`'s balance,
/// saturating.
pub open spec fn deposit_map(m: Map<u64, Balance>, who: AccountId, amount: Balance) -> Map<
    u64,
    Balance,
> {
    m.insert(
        who,
        crate::arith::clamp_u64(
            (if m.contains_key(who) {
                m[who]
            } else {
                0
            }) + amount,
        ),
    )
}

/// A balance map after a slash: `amount` is taken from `who`'s balance,
/// stopping at zero.
pub open spec fn slash_map(m: Map<u64, Balance>, who: AccountId, amount: Balance) -> Map<
    u64,
    Balance,
> {
    let bal: int = if m.contains_key(who) {
        m[who] as int
    } else {
        0
    };
    m.insert(
        who,
        if bal >= amount {
            (bal - amount) as u64
        } else {
            0u64
        },
    )
}

/// What one nominator of a validator receives of the validator's non-commission
/// payout: its share of the exposure, rounded down.
pub open spec fn nominator_payout(leftover: Balance, exp_total: Balance, value: Balance) -> Balance {
    crate::perbill::scaled_by_parts(
        leftover as int,
        crate::perbill::rational_parts(value as int, exp_total as int),
    ) as u64
}

/// The balance map after every ordinary nominator in `others` has been paid
/// its share, in order.
pub open spec fn pay_others(
    m: Map<u64, Balance>,
    others: Seq<crate::exposure::IndividualExposure>,
    leftover: Balance,
    exp_total: Balance,
) -> Map<u64, Balance>
    decreases others.len(),
{
    if others.len() == 0 {
        m
    } else {
        pay_others(
            deposit_map(m, others[0].who, nominator_payout(leftover, exp_total, others[0].value)),
            others.drop_first(),
            leftover,
            exp_total,
        )
    }
}

/// The balance map after every ordinary nominator in `others` has been
/// slashed by `fraction` of its exposed stake; custody accounts are exempt.
pub open spec fn slash_others(
    m: Map<u64, Balance>,
    others: Seq<crate::exposure::IndividualExposure>,
    fraction_parts: u32,
    custody: Set<AccountId>,
) -> Map<u64, Balance>
    decreases others.len(),
{
    if others.len() == 0 {
        m
    } else {
        let m1 = if custody.contains(others[0].who) {
            m
        } else {
            slash_map(
                m,
                others[0].who,
                crate::perbill::scaled_by_parts(others[0].value as int, fraction_parts as int) as u64,
            )
        };
        slash_others(m1, others.drop_first(), fraction_parts, custody)
    }
}

impl Staking {
    /// Add `amount` to the free balance of `who`, saturating.
    fn deposit(&mut self, who: AccountId, amount: Balance)
        requires
            old(self).wf(),
        ensures
            final(self).wf(),
            final(self).balances@ == deposit_map(old(self).balances@, who, amount),
            *final(self) == (Staking { balances: final(self).balances, ..*old(self) }),
    {
        let bal = self.balance(who);
        let updated = crate::arith::sat_add_u64(bal, amount);
        self.balances.insert(who, updated);
    }

    /// Take `amount` from the free balance of `who`, stopping at zero.
    fn slash_balance(&mut self, who: AccountId, amount: Balance)
        requires
            old(self).wf(),
        ensures
            final(self).wf(),
            final(self).balances@ == slash_map(old(self).balances@, who, amount),
            *final(self) == (Staking { balances: final(self).balances, ..*old(self) }),
    {
        let bal = self.balance(who);
        let updated = crate::arith::sat_sub_u64(bal, amount);
        self.balances.insert(who, updated);
    }

    /// Credit a list of `(validator, points)` pairs against the current era.
    /// A validator touched for the first time in the era gets one bonus point
    /// on top.
    pub fn reward_by_ids(&mut self, list: &Vec<(AccountId, u32)>)
        requires
            old(self).wf(),
        ensures
            final(self).wf(),
            final(self).eras@.contains_key(old(self).current_era as u64),
            final(self).eras@ == old(self).eras@.insert(
                old(self).current_era as u64,
                final(self).eras@[old(self).current_era as u64],
            ),
            final(self).eras@[old(self).current_era as u64].points.individual@ == reward_seq(
                old(self).era_points_map(old(self).current_era),
                old(self).era_points_total(old(self).current_era),
                list@,
            ).0,
            final(self).eras@[old(self).current_era as u64].points.total == reward_seq(
                old(self).era_points_map(old(self).current_era),
                old(self).era_points_total(old(self).current_era),
                list@,
            ).1,
            final(self).eras@[old(self).current_era as u64].stakers@ == (if old(
                self,
            ).eras@.contains_key(old(self).current_era as u64) {
                old(self).eras@[old(self).current_era as u64].stakers@
            } else {
                Map::<u64, Exposure>::empty()
            }),
            final(self).eras@[old(self).current_era as u64].prefs@ == (if old(
                self,
            ).eras@.contains_key(old(self).current_era as u64) {
                old(self).eras@[old(self).current_era as u64].prefs@
            } else {
                Map::<u64, ValidatorPrefs>::empty()
            }),
            final(self).eras@[old(self).current_era as u64].payout == (if old(
                self,
            ).eras@.contains_key(old(self).current_era as u64) {
                old(self).eras@[old(self).current_era as u64].payout
            } else {
                None
            }),
            *final(self) == (Staking { eras: final(self).eras, ..*old(self) }),
    {
        let era_key = self.current_era as u64;
        let had = self.eras.contains_key(era_key);
        let info_opt = if had {
            self.eras.remove(era_key)
        } else {
            None
        };
        let mut info = match info_opt {
            Some(i) => i,
            None => EraInfo::new(),
        };
        info.points.reward_by_ids(list);
        self.eras.insert(era_key, info);
        proof {
            assert(final(self).eras@ =~= old(self).eras@.insert(
                era_key,
                final(self).eras@[era_key],
            ));
        }
    }

    /// Credit the configured block points to the author of a block, as the
    /// block-authoring hook does once per block.
    pub fn note_block_author(&mut self, author: AccountId)
        requires
            old(self).wf(),
        ensures
            final(self).wf(),
            final(self).eras@.contains_key(old(self).current_era as u64),
            final(self).eras@ == old(self).eras@.insert(
                old(self).current_era as u64,
                final(self).eras@[old(self).current_era as u64],
            ),
            final(self).eras@[old(self).current_era as u64].points.individual@ == reward_seq(
                old(self).era_points_map(old(self).current_era),
                old(self).era_points_total(old(self).current_era),
                seq![(author, old(self).block_points)],
            ).0,
            final(self).eras@[old(self).current_era as u64].points.total == reward_seq(
                old(self).era_points_map(old(self).current_era),
                old(self).era_points_total(old(self).current_era),
                seq![(author, old(self).block_points)],
            ).1,
            final(self).eras@[old(self).current_era as u64].stakers@ == (if old(
                self,
            ).eras@.contains_key(old(self).current_era as u64) {
                old(self).eras@[old(self).current_era as u64].stakers@
            } else {
                Map::<u64, Exposure>::empty()
            }),
            final(self).eras@[old(self).current_era as u64].prefs@ == (if old(
                self,
            ).eras@.contains_key(old(self).current_era as u64) {
                old(self).eras@[old(self).current_era as u64].prefs@
            } else {
                Map::<u64, ValidatorPrefs>::empty()
            }),
            final(self).eras@[old(self).current_era as u64].payout == (if old(
                self,
            ).eras@.contains_key(old(self).current_era as u64) {
                old(self).eras@[old(self).current_era as u64].payout
            } else {
                None
            }),
            *final(self) == (Staking { eras: final(self).eras, ..*old(self) }),
    {
        let mut list: Vec<(AccountId, u32)> = Vec::new();
        list.push((author, self.block_points));
        proof {
            assert(list@ =~= seq![(author, old(self).block_points)]);
        }
        self.reward_by_ids(&list);
    }

    /// Deduct a list of `(validator, points)` pairs against the current era,
    /// flooring each credited validator at one point; validators without an
    /// entry are unaffected.
    pub fn deduct_by_ids(&mut self, list: &Vec<(AccountId, u32)>)
        requires
            old(self).wf(),
        ensures
            final(self).wf(),
            final(self).eras@.contains_key(old(self).current_era as u64),
            final(self).eras@ == old(self).eras@.insert(
                old(self).current_era as u64,
                final(self).eras@[old(self).current_era as u64],
            ),
            final(self).eras@[old(self).current_era as u64].points.individual@ == deduct_seq(
                old(self).era_points_map(old(self).current_era),
                list@,
            ),
            final(self).eras@[old(self).current_era as u64].stakers@ == (if old(
                self,
            ).eras@.contains_key(old(self).current_era as u64) {
                old(self).eras@[old(self).current_era as u64].stakers@
            } else {
                Map::<u64, Exposure>::empty()
            }),
            final(self).eras@[old(self).current_era as u64].prefs@ == (if old(
                self,
            ).eras@.contains_key(old(self).current_era as u64) {
                old(self).eras@[old(self).current_era as u64].prefs@
            } else {
                Map::<u64, ValidatorPrefs>::empty()
            }),
            final(self).eras@[old(self).current_era as u64].payout == (if old(
                self,
            ).eras@.contains_key(old(self).current_era as u64) {
                old(self).eras@[old(self).current_era as u64].payout
            } else {
                None
            }),
            *final(self) == (Staking { eras: final(self).eras, ..*old(self) }),
    {
        let era_key = self.current_era as u64;
        let had = self.eras.contains_key(era_key);
        let info_opt = if had {
            self.eras.remove(era_key)
        } else {
            None
        };
        let mut info = match info_opt {
            Some(i) => i,
            None => EraInfo::new(),
        };
        info.points.deduct_by_ids(list);
        self.eras.insert(era_key, info);
        proof {
            assert(final(self).eras@ =~= old(self).eras@.insert(
                era_key,
                final(self).eras@[era_key],
            ));
        }
    }

    /// Record the total payout of an era, as the inflation schedule (an
    /// outside collaborator) computed it at era end.
    pub fn set_era_payout(&mut self, era: EraIndex, amount: Balance)
        requires
            old(self).wf(),
        ensures
            final(self).wf(),
            final(self).eras@.contains_key(era as u64),
            final(self).eras@ == old(self).eras@.insert(era as u64, final(self).eras@[era as u64]),
            final(self).eras@[era as u64].payout == Some(amount),
            final(self).eras@[era as u64].points.individual@ == (if old(self).eras@.contains_key(
                era as u64,
            ) {
                old(self).eras@[era as u64].points.individual@
            } else {
                Map::<u64, u32>::empty()
            }),
            final(self).eras@[era as u64].points.total == old(self).era_points_total(era),
            final(self).eras@[era as u64].stakers@ == (if old(self).eras@.contains_key(era as u64) {
                old(self).eras@[era as u64].stakers@
            } else {
                Map::<u64, Exposure>::empty()
            }),
            final(self).eras@[era as u64].prefs@ == (if old(self).eras@.contains_key(era as u64) {
                old(self).eras@[era as u64].prefs@
            } else {
                Map::<u64, ValidatorPrefs>::empty()
            }),
            *final(self) == (Staking { eras: final(self).eras, ..*old(self) }),
    {
        let era_key = era as u64;
        let had = self.eras.contains_key(era_key);
        let info_opt = if had {
            self.eras.remove(era_key)
        } else {
            None
        };
        let mut info = match info_opt {
            Some(i) => i,
            None => EraInfo::new(),
        };
        info.payout = Some(amount);
        self.eras.insert(era_key, info);
        proof {
            assert(final(self).eras@ =~= old(self).eras@.insert(
                era_key,
                final(self).eras@[era_key],
            ));
        }
    }
}

impl Staking {
    /// Snapshot the exposures of the validator set the election provider
    /// elected for `era`, together with their preferences, and record the
    /// winners as the queued elected set.
    ///
    /// The election provider hands over one support per winner, so the
    /// winners are distinct.
    pub fn store_exposures(&mut self, era: EraIndex, supports: &Vec<Support>)
        requires
            old(self).wf(),
            forall|a: int, b: int|
                0 <= a < b < supports@.len() ==> supports@[a].validator != supports@[b].validator,
        ensures
            final(self).wf(),
            final(self).queued_elected@.len() == supports@.len(),
            forall|i: int|
                0 <= i < supports@.len() ==> final(self).queued_elected@[i] == supports@[i].validator,
            final(self).eras@.contains_key(era as u64),
            final(self).eras@ == old(self).eras@.insert(era as u64, final(self).eras@[era as u64]),
            // Every winner's exposure is exactly what its voters dictate,
            // with custody stake excluded from the reward-bearing parts.
            forall|i: int|
                0 <= i < supports@.len() ==> final(self).eras@[era as u64].stakers@.contains_key(
                    supports@[i].validator,
                ) && exposure_matches(
                    final(self).eras@[era as u64].stakers@[supports@[i].validator],
                    supports@[i].validator,
                    supports@[i].voters@,
                    old(self).custody_accounts@.dom(),
                ),
            forall|v: u64| #[trigger]
                final(self).eras@[era as u64].stakers@.contains_key(v) ==> exists|i: int|
                    0 <= i < supports@.len() && supports@[i].validator == v,
            // The commission of each winner is snapshotted as it stands.
            forall|i: int|
                0 <= i < supports@.len() ==> final(self).eras@[era as u64].prefs@.contains_key(
                    supports@[i].validator,
                ) && final(self).eras@[era as u64].prefs@[supports@[i].validator] == (if old(
                    self,
                ).validators@.contains_key(supports@[i].validator) {
                    old(self).validators@[supports@[i].validator]
                } else {
                    ValidatorPrefs { commission: Perbill { parts: 0 }, blocked: false }
                }),
            forall|v: u64| #[trigger]
                final(self).eras@[era as u64].prefs@.contains_key(v) ==> exists|i: int|
                    0 <= i < supports@.len() && supports@[i].validator == v,
            final(self).eras@[era as u64].points.individual@ == (if old(self).eras@.contains_key(
                era as u64,
            ) {
                old(self).eras@[era as u64].points.individual@
            } else {
                Map::<u64, u32>::empty()
            }),
            final(self).eras@[era as u64].points.total == old(self).era_points_total(era),
            final(self).eras@[era as u64].payout == (if old(self).eras@.contains_key(era as u64) {
                old(self).eras@[era as u64].payout
            } else {
                None
            }),
            *final(self) == (Staking {
                eras: final(self).eras,
                queued_elected: final(self).queued_elected,
                ..*old(self)
            }),
    {
        let n = supports.len();
        let mut stakers: KvStore<Exposure> = KvStore::new();
        let mut prefs: KvStore<ValidatorPrefs> = KvStore::new();
        let mut winners: Vec<AccountId> = Vec::new();
        let mut i: usize = 0;
        while i < n
            invariant
                i <= n,
                n == supports@.len(),
                self == old(self),
                old(self).wf(),
                forall|a: int, b: int|
                    0 <= a < b < supports@.len() ==> supports@[a].validator != supports@[b].validator,
                stakers.wf(),
                prefs.wf(),
                winners@.len() == i,
                forall|j: int| 0 <= j < i ==> winners@[j] == supports@[j].validator,
                forall|j: int|
                    0 <= j < i ==> stakers@.contains_key(supports@[j].validator)
                        && exposure_matches(
                        stakers@[supports@[j].validator],
                        supports@[j].validator,
                        supports@[j].voters@,
                        old(self).custody_accounts@.dom(),
                    ),
                forall|v: u64| #[trigger]
                    stakers@.contains_key(v) ==> exists|j: int|
                        0 <= j < i && supports@[j].validator == v,
                forall|j: int|
                    0 <= j < i ==> prefs@.contains_key(supports@[j].validator)
                        && prefs@[supports@[j].validator] == (if old(self).validators@.contains_key(
                        supports@[j].validator,
                    ) {
                        old(self).validators@[supports@[j].validator]
                    } else {
                        ValidatorPrefs { commission: Perbill { parts: 0 }, blocked: false }
                    }),
                forall|v: u64| #[trigger] prefs@.contains_key(v) ==> prefs@[v].wf(),
                forall|v: u64| #[trigger]
                    prefs@.contains_key(v) ==> exists|j: int|
                        0 <= j < i && supports@[j].validator == v,
            decreases n - i,
        {
            let support = &supports[i];
            let v = support.validator;
            let e = crate::exposure::exposure_from_voters(v, &support.voters, &self.custody_accounts);
            stakers.insert(v, e);
            let p: ValidatorPrefs = match self.validators.get(v) {
                Some(p) => *p,
                None => ValidatorPrefs { commission: Perbill { parts: 0 }, blocked: false },
            };
            prefs.insert(v, p);
            winners.push(v);
            i = i + 1;
        }
        let era_key = era as u64;
        let had = self.eras.contains_key(era_key);
        let info_opt = if had {
            self.eras.remove(era_key)
        } else {
            None
        };
        let mut info = match info_opt {
            Some(old_info) => old_info,
            None => EraInfo::new(),
        };
        info.stakers = stakers;
        info.prefs = prefs;
        self.eras.insert(era_key, info);
        self.queued_elected = winners;
        proof {
            assert(final(self).eras@ =~= old(self).eras@.insert(
                era_key,
                final(self).eras@[era_key],
            ));
        }
    }
}

/// What `payout_stakers` does. The era must be known with a recorded payout
/// and the stash bonded; an era already in the stash's claimed list is
/// rejected with `AlreadyClaimed` and nothing changes. Otherwise the era is
/// marked claimed, and — when the validator earned points that era — the
/// validator's share of the era payout, proportional to its points, is split:
/// the commission snapshot goes to the validator, and the rest is divided
/// between the validator and its snapshotted ordinary nominators pro rata to
/// exposure. Every amount is deposited on the stash account in question, and
/// the reward-pool handler is told the validator's full share.
pub open spec fn payout_post(
    pre: Staking,
    post: Staking,
    era: EraIndex,
    stash: AccountId,
    r: Result<(), Error>,
) -> bool {
    if !(pre.eras@.contains_key(era as u64) && pre.eras@[era as u64].payout is Some) {
        r == Err::<(), Error>(Error::InvalidEraToReward) && post == pre
    } else if !pre.is_stash(stash) {
        r == Err::<(), Error>(Error::NotStash) && post == pre
    } else {
        let c = pre.bonded@[stash];
        let l = pre.ledgers@[c];
        let info = pre.eras@[era as u64];
        if l.claimed_rewards@.contains(era) {
            r == Err::<(), Error>(Error::AlreadyClaimed) && post == pre
        } else {
            &&& r == Ok::<(), Error>(())
            &&& post.ledgers@ == pre.ledgers@.insert(c, post.ledgers@[c])
            &&& post.ledgers@[c] == (StakingLedger {
                claimed_rewards: post.ledgers@[c].claimed_rewards,
                ..l
            })
            &&& post.ledgers@[c].claimed_rewards@ == l.claimed_rewards@.push(era)
            &&& if !info.points.individual@.contains_key(stash) {
                post == (Staking { ledgers: post.ledgers, ..pre })
            } else {
                let era_payout = info.payout->Some_0;
                let vpart = crate::perbill::rational_parts(
                    info.points.individual@[stash] as int,
                    info.points.total as int,
                );
                let vtotal = crate::perbill::scaled_by_parts(era_payout as int, vpart) as u64;
                let commission_parts: int = if info.prefs@.contains_key(stash) {
                    info.prefs@[stash].commission.parts as int
                } else {
                    0
                };
                let commission_payout = crate::perbill::scaled_by_parts(
                    vtotal as int,
                    commission_parts,
                ) as u64;
                let leftover = (vtotal - commission_payout) as u64;
                let exp_total: Balance = if info.stakers@.contains_key(stash) {
                    info.stakers@[stash].total
                } else {
                    0
                };
                let exp_own: Balance = if info.stakers@.contains_key(stash) {
                    info.stakers@[stash].own
                } else {
                    0
                };
                let others = if info.stakers@.contains_key(stash) {
                    info.stakers@[stash].others@
                } else {
                    Seq::<crate::exposure::IndividualExposure>::empty()
                };
                let own_payout = crate::perbill::scaled_by_parts(
                    leftover as int,
                    crate::perbill::rational_parts(exp_own as int, exp_total as int),
                ) as u64;
                let validator_amount = (commission_payout + own_payout) as u64;
                &&& post.balances@ == pay_others(
                    deposit_map(pre.balances@, stash, validator_amount),
                    others,
                    leftover,
                    exp_total,
                )
                &&& post.reward_handler_total == crate::arith::clamp_u64(
                    pre.reward_handler_total + vtotal,
                )
                &&& post == (Staking {
                    ledgers: post.ledgers,
                    balances: post.balances,
                    reward_handler_total: post.reward_handler_total,
                    ..pre
                })
            }
        }
    }
}

impl Staking {
    /// Pay the era reward of one validator stash: its commission plus its own
    /// exposure share, and each snapshotted ordinary nominator's share.
    /// Idempotent per `(era, stash)`: a repeat call fails with
    /// `AlreadyClaimed` and changes nothing.
    pub fn payout_stakers(&mut self, era: EraIndex, validator_stash: AccountId) -> (r: Result<
        (),
        Error,
    >)
        requires
            old(self).wf(),
        ensures
            final(self).wf(),
            payout_post(*old(self), *final(self), era, validator_stash, r),
    {
        let era_key = era as u64;
        // Read phase: every check happens before any mutation.
        let era_payout: Balance = match self.eras.get(era_key) {
            Some(info) => {
                match info.payout {
                    Some(p) => p,
                    None => {
                        return Err(Error::InvalidEraToReward);
                    },
                }
            },
            None => {
                return Err(Error::InvalidEraToReward);
            },
        };
        let controller: AccountId = match self.bonded.get(validator_stash) {
            Some(c) => *c,
            None => {
                return Err(Error::NotStash);
            },
        };
        let already = match self.ledgers.get(controller) {
            Some(l) => era_claimed(&l.claimed_rewards, era),
            None => unreached(),
        };
        if already {
            return Err(Error::AlreadyClaimed);
        }
        let (has_points, validator_points, total_points): (bool, u32, u32) = match self.eras.get(
            era_key,
        ) {
            Some(info) => {
                match info.points.individual.get(validator_stash) {
                    Some(p) => (true, *p, info.points.total),
                    None => (false, 0, info.points.total),
                }
            },
            None => unreached(),
        };
        let commission: Perbill = match self.eras.get(era_key) {
            Some(info) => {
                match info.prefs.get(validator_stash) {
                    Some(p) => p.commission,
                    None => Perbill { parts: 0 },
                }
            },
            None => unreached(),
        };
        let (exp_total, exp_own, others): (Balance, Balance, Vec<
            crate::exposure::IndividualExposure,
        >) = match self.eras.get(era_key) {
            Some(info) => {
                match info.stakers.get(validator_stash) {
                    Some(e) => (e.total, e.own, e.others_copy()),
                    None => (0, 0, Vec::new()),
                }
            },
            None => unreached(),
        };
        // Mutation phase: mark the era claimed first.
        let l_opt = self.ledgers.remove(controller);
        let mut l = match l_opt {
            Some(l) => l,
            None => unreached(),
        };
        l.claimed_rewards.push(era);
        self.ledgers.insert(controller, l);
        proof {
            assert(self.ledgers@ =~= old(self).ledgers@.insert(
                controller,
                self.ledgers@[controller],
            ));
        }
        if !has_points {
            return Ok(());
        }
        // Split the era payout.
        let vpart = Perbill::from_rational(validator_points as u64, total_points as u64);
        let vtotal = vpart.mul_balance(era_payout);
        let commission_payout = commission.mul_balance(vtotal);
        let leftover = vtotal - commission_payout;
        let own_part = Perbill::from_rational(exp_own, exp_total);
        let own_payout = own_part.mul_balance(leftover);
        self.reward_handler_total = crate::arith::sat_add_u64(self.reward_handler_total, vtotal);
        self.deposit(validator_stash, commission_payout + own_payout);
        let ghost mid = *self;
        let ghost target = pay_others(mid.balances@, others@, leftover, exp_total);
        let m = others.len();
        let mut i: usize = 0;
        proof {
            assert(others@.skip(0) =~= others@);
        }
        while i < m
            invariant
                i <= m,
                m == others@.len(),
                self.wf(),
                *self == (Staking { balances: self.balances, ..mid }),
                pay_others(self.balances@, others@.skip(i as int), leftover, exp_total) == target,
            decreases m - i,
        {
            let o = others[i];
            proof {
                assert(others@.skip(i as int)[0] == others@[i as int]);
                assert(others@.skip(i as int).drop_first() =~= others@.skip(i as int + 1));
            }
            let part = Perbill::from_rational(o.value, exp_total);
            let amount = part.mul_balance(leftover);
            self.deposit(o.who, amount);
            i = i + 1;
        }
        proof {
            assert(others@.skip(m as int) =~= Seq::<crate::exposure::IndividualExposure>::empty());
        }
        Ok(())
    }
}

/// What `apply_slash` does. An offence by a custody-classified stash is fully
/// exempted before anything is debited. Otherwise the validator's balance
/// loses `fraction` of its snapshotted own exposure, and each snapshotted
/// ordinary nominator that is not custody-classified loses `fraction` of its
/// exposed stake; an era or validator without a snapshot makes the offence a
/// no-op.
pub open spec fn slash_post(
    pre: Staking,
    post: Staking,
    era: EraIndex,
    stash: AccountId,
    fraction: Perbill,
) -> bool {
    if pre.is_custody(stash) {
        post == pre
    } else if !(pre.eras@.contains_key(era as u64) && pre.eras@[era as u64].stakers@.contains_key(
        stash,
    )) {
        post == pre
    } else {
        let exp = pre.eras@[era as u64].stakers@[stash];
        let own_loss = crate::perbill::scaled_by_parts(exp.own as int, fraction.parts as int) as u64;
        &&& post.balances@ == slash_others(
            slash_map(pre.balances@, stash, own_loss),
            exp.others@,
            fraction.parts,
            pre.custody_accounts@.dom(),
        )
        &&& post == (Staking { balances: post.balances, ..pre })
    }
}

impl Staking {
    /// Apply a slash of `fraction` against the era exposure of
    /// `validator_stash`. Custody accounts cannot be slashed: a custody stash
    /// exempts the whole offence, and custody nominators are skipped.
    pub fn apply_slash(&mut self, era: EraIndex, validator_stash: AccountId, fraction: Perbill)
        requires
            old(self).wf(),
            fraction.wf(),
        ensures
            final(self).wf(),
            slash_post(*old(self), *final(self), era, validator_stash, fraction),
    {
        if self.custody_accounts.contains_key(validator_stash) {
            return ;
        }
        let era_key = era as u64;
        let (found, exp_own, others): (bool, Balance, Vec<crate::exposure::IndividualExposure>) =
            match self.eras.get(era_key) {
            Some(info) => {
                match info.stakers.get(validator_stash) {
                    Some(e) => (true, e.own, e.others_copy()),
                    None => (false, 0, Vec::new()),
                }
            },
            None => (false, 0, Vec::new()),
        };
        if !found {
            return ;
        }
        let own_loss = fraction.mul_balance(exp_own);
        self.slash_balance(validator_stash, own_loss);
        let ghost mid = *self;
        let ghost target = slash_others(
            mid.balances@,
            others@,
            fraction.parts,
            mid.custody_accounts@.dom(),
        );
        let m = others.len();
        let mut i: usize = 0;
        proof {
            assert(others@.skip(0) =~= others@);
        }
        while i < m
            invariant
                i <= m,
                m == others@.len(),
                self.wf(),
                fraction.wf(),
                *self == (Staking { balances: self.balances, ..mid }),
                slash_others(
                    self.balances@,
                    others@.skip(i as int),
                    fraction.parts,
                    mid.custody_accounts@.dom(),
                ) == target,
            decreases m - i,
        {
            let o = others[i];
            proof {
                assert(others@.skip(i as int)[0] == others@[i as int]);
                assert(others@.skip(i as int).drop_first() =~= others@.skip(i as int + 1));
            }
            if !self.custody_accounts.contains_key(o.who) {
                let loss = fraction.mul_balance(o.value);
                self.slash_balance(o.who, loss);
            }
            i = i + 1;
        }
        proof {
            assert(others@.skip(m as int) =~= Seq::<crate::exposure::IndividualExposure>::empty());
        }
    }

    /// The ledger paired with a controller account.
    pub fn ledger(&self, controller: AccountId) -> (r: Option<&StakingLedger>)
        requires
            self.wf(),
        ensures
            r is Some <==> self.is_controller(controller),
            r is Some ==> *r->Some_0 == self.ledgers@[controller],
    {
        self.ledgers.get(controller)
    }

    /// Whether an identity token is registered to some stash.
    pub fn cmix_id_registered(&self, token: CmixId) -> (r: bool)
        ensures
            r == self.cmix_id_taken(token),
    {
        self.cmix_ids.contains_key(token)
    }

    /// Total reward points of an era.
    pub fn points_total(&self, era: EraIndex) -> (r: u32)
        requires
            self.wf(),
        ensures
            r == self.era_points_total(era),
    {
        match self.eras.get(era as u64) {
            Some(info) => info.points.total,
            None => 0,
        }
    }

    /// Reward points of one validator in an era; a validator never credited
    /// holds none.
    pub fn points_of(&self, era: EraIndex, validator: AccountId) -> (r: u32)
        requires
            self.wf(),
        ensures
            r == (if self.era_points_map(era).contains_key(validator) {
                self.era_points_map(era)[validator]
            } else {
                0u32
            }),
    {
        match self.eras.get(era as u64) {
            Some(info) => {
                match info.points.individual.get(validator) {
                    Some(p) => *p,
                    None => 0,
                }
            },
            None => 0,
        }
    }

    /// The snapshotted exposure of a validator in an era.
    pub fn era_exposure(&self, era: EraIndex, validator: AccountId) -> (r: Option<&Exposure>)
        requires
            self.wf(),
        ensures
            r is Some <==> (self.eras@.contains_key(era as u64)
                && self.eras@[era as u64].stakers@.contains_key(validator)),
            r is Some ==> *r->Some_0 == self.eras@[era as u64].stakers@[validator],
    {
        match self.eras.get(era as u64) {
            Some(info) => info.stakers.get(validator),
            None => None,
        }
    }
}

/// Whether a claimed-rewards list holds `era`.
fn era_claimed(v: &Vec<EraIndex>, era: EraIndex) -> (r: bool)
    ensures
        r == v@.contains(era),
{
    let n = v.len();
    let mut i: usize = 0;
    while i < n
        invariant
            i <= n,
            n == v@.len(),
            forall|j: int| 0 <= j < i ==> v@[j] != era,
        decreases n - i,
    {
        if v[i] == era {
            return true;
        }
        i = i + 1;
    }
    false
}

/// Whether a vector of account ids contains `who`.
fn vec_contains(v: &Vec<AccountId>, who: AccountId) -> (r: bool)
    ensures
        r == v@.contains(who),
{
    let n = v.len();
    let mut i: usize = 0;
    while i < n
        invariant
            i <= n,
            n == v@.len(),
            forall|j: int| 0 <= j < i ==> v@[j] != who,
        decreases n - i,
    {
        if v[i] == who {
            return true;
        }
        i = i + 1;
    }
    false
}

} // verus!
