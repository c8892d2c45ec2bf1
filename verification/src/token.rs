use vstd::prelude::*;
use std::collections::HashMap;
use crate::account::AccountId;
use crate::allowances::allow_get;
use crate::allowances::spec_pair_key;
use crate::errors::TokenError;
use crate::ledger::bal_get;
use crate::ledger::flag_get;

verus! {

broadcast use vstd::std_specs::hash::group_hash_axioms;

/// One deployed token instance: the single source of truth for who
/// owns how much within its namespace.
///
/// Entries of the three maps come into being on first write and are
/// never deleted; an absent entry reads as zero (or as not
/// blacklisted). The owner is fixed at construction and never changes.
pub struct SimpleToken {
    /// Account identifier -> balance; absent reads as 0.
    pub balances: HashMap<AccountId, u128>,
    /// Packed (owner, spender) pair -> remaining allowance; absent
    /// reads as 0.
    pub allowances: HashMap<u128, u128>,
    /// Account identifier -> barred flag; absent reads as false.
    pub blacklisted: HashMap<AccountId, bool>,
    /// While true, every balance- or allowance-mutating operation is
    /// refused; reads and the owner's pause toggles still work.
    pub paused: bool,
    /// The one identity allowed to mint, pause, and manage the
    /// blacklist.
    pub owner: AccountId,
}

impl SimpleToken {
    /// Balance of `a` in this ledger state.
    pub open spec fn spec_balance_of(self, a: AccountId) -> u128 {
        bal_get(self.balances@, a)
    }

    /// Remaining amount `spender` may move out of `owner_acct`'s
    /// balance.
    pub open spec fn spec_allowance(self, owner_acct: AccountId, spender: AccountId) -> u128 {
        allow_get(self.allowances@, spec_pair_key(owner_acct, spender))
    }

    /// Whether `a` is barred from balance-affecting operations.
    pub open spec fn spec_is_blacklisted(self, a: AccountId) -> bool {
        flag_get(self.blacklisted@, a)
    }

    /// The two ledgers hold the same balances.
    pub open spec fn same_balances(self, other: SimpleToken) -> bool {
        self.balances@ == other.balances@
    }

    /// The two ledgers hold the same allowances.
    pub open spec fn same_allowances(self, other: SimpleToken) -> bool {
        self.allowances@ == other.allowances@
    }

    /// The two ledgers agree on everything the administrator controls:
    /// owner, pause flag, and blacklist.
    pub open spec fn same_admin(self, other: SimpleToken) -> bool {
        &&& self.owner == other.owner
        &&& self.paused == other.paused
        &&& self.blacklisted@ == other.blacklisted@
    }

    /// A fresh ledger: every balance and allowance zero, nobody
    /// blacklisted, not paused, and the deploying caller as owner.
    pub fn new(caller: AccountId) -> (t: SimpleToken)
        ensures
            t.balances@ == Map::<AccountId, u128>::empty(),
            t.allowances@ == Map::<u128, u128>::empty(),
            t.blacklisted@ == Map::<AccountId, bool>::empty(),
            !t.paused,
            t.owner == caller,
            forall|a: AccountId| t.spec_balance_of(a) == 0,
            forall|o: AccountId, s: AccountId| t.spec_allowance(o, s) == 0,
            forall|a: AccountId| !t.spec_is_blacklisted(a),
            crate::ledger::spec_total(t.balances@) == 0,
    {
        proof {
            crate::ledger::lemma_total_empty();
        }
        SimpleToken {
            balances: HashMap::new(),
            allowances: HashMap::new(),
            blacklisted: HashMap::new(),
            paused: false,
            owner: caller,
        }
    }

    /// Stored balance of `owner_acct`, or 0 for an absent entry. No
    /// guard, no side effect.
    pub fn balance_of(&self, owner_acct: AccountId) -> (r: u128)
        ensures
            r == self.spec_balance_of(owner_acct),
    {
        match self.balances.get(&owner_acct) {
            Some(v) => *v,
            None => 0,
        }
    }

    /// Stored allowance for the (owner, spender) pair, or 0 for an
    /// absent entry. No guard, no side effect.
    pub fn allowance(&self, owner_acct: AccountId, spender: AccountId) -> (r: u128)
        ensures
            r == self.spec_allowance(owner_acct, spender),
    {
        let key = crate::allowances::pair_key(owner_acct, spender);
        match self.allowances.get(&key) {
            Some(v) => *v,
            None => 0,
        }
    }

    /// Whether the ledger is paused. No guard, no side effect.
    pub fn is_paused(&self) -> (r: bool)
        ensures
            r == self.paused,
    {
        self.paused
    }

    /// Whether `account` is blacklisted. No guard, no side effect.
    pub fn is_blacklisted(&self, account: AccountId) -> (r: bool)
        ensures
            r == self.spec_is_blacklisted(account),
    {
        match self.blacklisted.get(&account) {
            Some(v) => *v,
            None => false,
        }
    }

    /// Guard: only the fixed owner passes.
    pub fn ensure_owner(&self, caller: AccountId) -> (r: Result<(), TokenError>)
        ensures
            caller == self.owner ==> r == Ok::<(), TokenError>(()),
            caller != self.owner ==> r == Err::<(), TokenError>(TokenError::Authorization),
    {
        if caller != self.owner {
            Err(TokenError::Authorization)
        } else {
            Ok(())
        }
    }

    /// Guard: fails while the pause flag is set.
    pub fn ensure_not_paused(&self) -> (r: Result<(), TokenError>)
        ensures
            !self.paused ==> r == Ok::<(), TokenError>(()),
            self.paused ==> r == Err::<(), TokenError>(TokenError::Paused),
    {
        if self.paused {
            Err(TokenError::Paused)
        } else {
            Ok(())
        }
    }

    /// Guard: fails for a blacklisted account.
    pub fn ensure_not_blacklisted(&self, account: AccountId) -> (r: Result<(), TokenError>)
        ensures
            !self.spec_is_blacklisted(account) ==> r == Ok::<(), TokenError>(()),
            self.spec_is_blacklisted(account) ==> r == Err::<(), TokenError>(
                TokenError::Blacklisted,
            ),
    {
        if self.is_blacklisted(account) {
            Err(TokenError::Blacklisted)
        } else {
            Ok(())
        }
    }
}

} // verus!
