use vstd::prelude::*;
use crate::account::AccountId;
use crate::errors::TokenError;
use crate::token::SimpleToken;

verus! {

broadcast use vstd::std_specs::hash::group_hash_axioms;

impl SimpleToken {
    /// Sets the pause flag, halting every balance- and
    /// allowance-mutating operation. Owner-only; idempotent.
    pub fn pause(&mut self, caller: AccountId) -> (r: Result<(), TokenError>)
        ensures
            match r {
                Ok(_) => {
                    &&& caller == old(self).owner
                    &&& final(self).paused
                    &&& final(self).owner == old(self).owner
                    &&& final(self).blacklisted@ == old(self).blacklisted@
                    &&& old(self).same_balances(*final(self))
                    &&& old(self).same_allowances(*final(self))
                },
                Err(e) => {
                    &&& caller != old(self).owner
                    &&& e == TokenError::Authorization
                    &&& *final(self) == *old(self)
                },
            },
    {
        if let Err(e) = self.ensure_owner(caller) {
            return Err(e);
        }
        self.paused = true;
        Ok(())
    }

    /// Clears the pause flag. Owner-only; idempotent.
    pub fn unpause(&mut self, caller: AccountId) -> (r: Result<(), TokenError>)
        ensures
            match r {
                Ok(_) => {
                    &&& caller == old(self).owner
                    &&& !final(self).paused
                    &&& final(self).owner == old(self).owner
                    &&& final(self).blacklisted@ == old(self).blacklisted@
                    &&& old(self).same_balances(*final(self))
                    &&& old(self).same_allowances(*final(self))
                },
                Err(e) => {
                    &&& caller != old(self).owner
                    &&& e == TokenError::Authorization
                    &&& *final(self) == *old(self)
                },
            },
    {
        if let Err(e) = self.ensure_owner(caller) {
            return Err(e);
        }
        self.paused = false;
        Ok(())
    }

    /// Bars `account` from every balance-affecting operation.
    /// Owner-only; idempotent. Existing balances and allowances are
    /// left untouched.
    pub fn blacklist(&mut self, caller: AccountId, account: AccountId) -> (r: Result<
        (),
        TokenError,
    >)
        ensures
            match r {
                Ok(_) => {
                    &&& caller == old(self).owner
                    &&& final(self).blacklisted@ == old(self).blacklisted@.insert(account, true)
                    &&& final(self).spec_is_blacklisted(account)
                    &&& forall|x: AccountId|
                        x != account ==> final(self).spec_is_blacklisted(x) == old(self).spec_is_blacklisted(x)
                    &&& final(self).owner == old(self).owner
                    &&& final(self).paused == old(self).paused
                    &&& old(self).same_balances(*final(self))
                    &&& old(self).same_allowances(*final(self))
                },
                Err(e) => {
                    &&& caller != old(self).owner
                    &&& e == TokenError::Authorization
                    &&& *final(self) == *old(self)
                },
            },
    {
        if let Err(e) = self.ensure_owner(caller) {
            return Err(e);
        }
        self.blacklisted.insert(account, true);
        Ok(())
    }

    /// Clears `account`'s blacklist flag. Owner-only; idempotent.
    pub fn unblacklist(&mut self, caller: AccountId, account: AccountId) -> (r: Result<
        (),
        TokenError,
    >)
        ensures
            match r {
                Ok(_) => {
                    &&& caller == old(self).owner
                    &&& final(self).blacklisted@ == old(self).blacklisted@.insert(account, false)
                    &&& !final(self).spec_is_blacklisted(account)
                    &&& forall|x: AccountId|
                        x != account ==> final(self).spec_is_blacklisted(x) == old(self).spec_is_blacklisted(x)
                    &&& final(self).owner == old(self).owner
                    &&& final(self).paused == old(self).paused
                    &&& old(self).same_balances(*final(self))
                    &&& old(self).same_allowances(*final(self))
                },
                Err(e) => {
                    &&& caller != old(self).owner
                    &&& e == TokenError::Authorization
                    &&& *final(self) == *old(self)
                },
            },
    {
        if let Err(e) = self.ensure_owner(caller) {
            return Err(e);
        }
        self.blacklisted.insert(account, false);
        Ok(())
    }
}

} // verus!
