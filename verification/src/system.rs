//! The key-rotation signed extension: at dispatch it rotates the sender's
//! stored public key hash to the one it carries.

use crate::kvstore::KvStore;
use crate::AccountId;
use vstd::prelude::*;

verus! {

/// The current and next public key of a system account, as the signed
/// extension that rotates keys sees it.
#[derive(Clone, Copy, PartialEq, Eq, Structural, Debug)]
pub struct AccountRecord {
    /// The number of transactions the account has sent.
    pub nonce: u32,
    /// The account's current public key hash.
    pub curr_pk: AccountId,
}

/// Set the next public key: a signed extension that, at dispatch, rotates the
/// sender's stored public key hash to the one it carries.
pub struct SetNextPk(pub AccountId);

impl SetNextPk {
    /// Utility constructor. Used only in client/factory code.
    pub fn from(next_pk: AccountId) -> (r: Self)
        ensures
            r.0 == next_pk,
    {
        SetNextPk(next_pk)
    }

    /// Rotate the sender's stored public key hash to the carried one; an
    /// account not seen before starts from a fresh record.
    pub fn pre_dispatch(self, who: AccountId, accounts: &mut KvStore<AccountRecord>) -> (r: Result<
        (),
        (),
    >)
        requires
            old(accounts).wf(),
        ensures
            final(accounts).wf(),
            r is Ok,
            final(accounts)@ == old(accounts)@.insert(
                who,
                (AccountRecord {
                    nonce: if old(accounts)@.contains_key(who) {
                        old(accounts)@[who].nonce
                    } else {
                        0
                    },
                    curr_pk: self.0,
                }),
            ),
    {
        let nonce: u32 = match accounts.get(who) {
            Some(a) => a.nonce,
            None => 0,
        };
        accounts.insert(who, AccountRecord { nonce, curr_pk: self.0 });
        Ok(())
    }
}

} // verus!
