use vstd::prelude::*;
use crate::account::AccountId;
use crate::allowances::lemma_pair_key_injective;
use crate::allowances::pair_key;
use crate::allowances::spec_pair_key;
use crate::errors::TokenError;
use crate::events::Approval;
use crate::events::Burn;
use crate::events::Mint;
use crate::events::Transfer;
use crate::ledger::bal_get;
use crate::ledger::spec_credit;
use crate::ledger::spec_debit;
use crate::ledger::spec_move;
use crate::token::SimpleToken;

verus! {

broadcast use vstd::std_specs::hash::group_hash_axioms;

impl SimpleToken {
    /// Everything `mint` decides, in guard order: either the balances
    /// map after crediting the recipient, or the exact error.
    pub open spec fn spec_mint_outcome(self, caller: AccountId, to: AccountId, amount: u128) -> Result<
        Map<AccountId, u128>,
        TokenError,
    > {
        if caller != self.owner {
            Err(TokenError::Authorization)
        } else if self.paused {
            Err(TokenError::Paused)
        } else if self.spec_is_blacklisted(to) {
            Err(TokenError::Blacklisted)
        } else if self.spec_balance_of(to) + amount > u128::MAX {
            Err(TokenError::Overflow)
        } else {
            Ok(spec_credit(self.balances@, to, amount))
        }
    }

    /// Everything `burn` decides, in guard order: either the balances
    /// map after debiting the caller, or the exact error.
    pub open spec fn spec_burn_outcome(self, caller: AccountId, amount: u128) -> Result<
        Map<AccountId, u128>,
        TokenError,
    > {
        if self.paused {
            Err(TokenError::Paused)
        } else if self.spec_is_blacklisted(caller) {
            Err(TokenError::Blacklisted)
        } else if amount > self.spec_balance_of(caller) {
            Err(TokenError::InsufficientBalance)
        } else {
            Ok(spec_debit(self.balances@, caller, amount))
        }
    }

    /// Everything a single balance move decides, in guard order:
    /// either the balances map after debiting `from` and crediting
    /// `to`, or the exact error. The destination balance is read after
    /// the debit, so a move onto oneself neither fails nor changes
    /// anything.
    pub open spec fn spec_transfer_outcome(self, from: AccountId, to: AccountId, amount: u128) -> Result<
        Map<AccountId, u128>,
        TokenError,
    > {
        if self.paused {
            Err(TokenError::Paused)
        } else if self.spec_is_blacklisted(from) {
            Err(TokenError::Blacklisted)
        } else if self.spec_is_blacklisted(to) {
            Err(TokenError::Blacklisted)
        } else if amount > self.spec_balance_of(from) {
            Err(TokenError::InsufficientBalance)
        } else if bal_get(spec_debit(self.balances@, from, amount), to) + amount > u128::MAX {
            Err(TokenError::Overflow)
        } else {
            Ok(spec_move(self.balances@, from, to, amount))
        }
    }

    /// Everything `approve` decides: either the allowance map after
    /// overwriting the (caller, spender) entry, or the exact error.
    /// Approval overwrites — it never adds to the prior allowance.
    pub open spec fn spec_approve_outcome(self, caller: AccountId, spender: AccountId, amount: u128) -> Result<
        Map<u128, u128>,
        TokenError,
    > {
        if self.paused {
            Err(TokenError::Paused)
        } else if self.spec_is_blacklisted(caller) {
            Err(TokenError::Blacklisted)
        } else {
            Ok(self.allowances@.insert(spec_pair_key(caller, spender), amount))
        }
    }

    /// Everything `transfer_from` decides, in guard order: either the
    /// balances map and allowance map after spending the allowance and
    /// moving the funds, or the exact error.
    pub open spec fn spec_transfer_from_outcome(
        self,
        caller: AccountId,
        from: AccountId,
        to: AccountId,
        amount: u128,
    ) -> Result<(Map<AccountId, u128>, Map<u128, u128>), TokenError> {
        if self.paused {
            Err(TokenError::Paused)
        } else if self.spec_is_blacklisted(caller) {
            Err(TokenError::Blacklisted)
        } else if self.spec_is_blacklisted(from) {
            Err(TokenError::Blacklisted)
        } else if self.spec_is_blacklisted(to) {
            Err(TokenError::Blacklisted)
        } else if amount > self.spec_allowance(from, caller) {
            Err(TokenError::AllowanceExceeded)
        } else if amount > self.spec_balance_of(from) {
            Err(TokenError::InsufficientBalance)
        } else if bal_get(spec_debit(self.balances@, from, amount), to) + amount > u128::MAX {
            Err(TokenError::Overflow)
        } else {
            Ok(
                (
                    spec_move(self.balances@, from, to, amount),
                    self.allowances@.insert(
                        spec_pair_key(from, caller),
                        (self.spec_allowance(from, caller) - amount) as u128,
                    ),
                ),
            )
        }
    }

    /// Mints `amount` new units to `to`. Owner-only; refused while
    /// paused or for a blacklisted recipient; fails rather than wrap
    /// on overflow. Emits the returned Mint record.
    pub fn mint(&mut self, caller: AccountId, to: AccountId, amount: u128) -> (r: Result<
        Mint,
        TokenError,
    >)
        ensures
            match r {
                Ok(ev) => {
                    &&& (old(self).spec_mint_outcome(caller, to, amount) matches Ok(m) && final(self).balances@ == m)
                    &&& ev == (Mint { to, amount })
                    &&& final(self).spec_balance_of(to) == old(self).spec_balance_of(to) + amount
                    &&& forall|x: AccountId|
                        x != to ==> final(self).spec_balance_of(x) == old(self).spec_balance_of(x)
                    &&& old(self).same_allowances(*final(self))
                    &&& old(self).same_admin(*final(self))
                },
                Err(e) => {
                    &&& old(self).spec_mint_outcome(caller, to, amount) == Err::<
                        Map<AccountId, u128>,
                        TokenError,
                    >(e)
                    &&& *final(self) == *old(self)
                },
            },
    {
        if let Err(e) = self.ensure_owner(caller) {
            return Err(e);
        }
        if let Err(e) = self.ensure_not_paused() {
            return Err(e);
        }
        if let Err(e) = self.ensure_not_blacklisted(to) {
            return Err(e);
        }
        let current = self.balance_of(to);
        if amount > u128::MAX - current {
            return Err(TokenError::Overflow);
        }
        self.balances.insert(to, current + amount);
        Ok(Mint { to, amount })
    }

    /// Burns `amount` units out of the caller's own balance.
    /// Self-service — no owner check; refused while paused or for a
    /// blacklisted caller; fails rather than wrap on underflow. Emits
    /// the returned Burn record.
    pub fn burn(&mut self, caller: AccountId, amount: u128) -> (r: Result<Burn, TokenError>)
        ensures
            match r {
                Ok(ev) => {
                    &&& (old(self).spec_burn_outcome(caller, amount) matches Ok(m) && final(self).balances@ == m)
                    &&& ev == (Burn { from: caller, amount })
                    &&& final(self).spec_balance_of(caller) == old(self).spec_balance_of(caller)
                        - amount
                    &&& forall|x: AccountId|
                        x != caller ==> final(self).spec_balance_of(x) == old(self).spec_balance_of(x)
                    &&& old(self).same_allowances(*final(self))
                    &&& old(self).same_admin(*final(self))
                },
                Err(e) => {
                    &&& old(self).spec_burn_outcome(caller, amount) == Err::<
                        Map<AccountId, u128>,
                        TokenError,
                    >(e)
                    &&& *final(self) == *old(self)
                },
            },
    {
        if let Err(e) = self.ensure_not_paused() {
            return Err(e);
        }
        if let Err(e) = self.ensure_not_blacklisted(caller) {
            return Err(e);
        }
        let balance = self.balance_of(caller);
        if amount > balance {
            return Err(TokenError::InsufficientBalance);
        }
        self.balances.insert(caller, balance - amount);
        Ok(Burn { from: caller, amount })
    }

    /// Moves `amount` from the caller's balance to `to`. Refused while
    /// paused or when either side is blacklisted; the debit and the
    /// credit are checked, and on any failure nothing changes. Emits
    /// the returned Transfer record.
    pub fn transfer(&mut self, caller: AccountId, to: AccountId, amount: u128) -> (r: Result<
        Transfer,
        TokenError,
    >)
        ensures
            match r {
                Ok(ev) => {
                    &&& (old(self).spec_transfer_outcome(caller, to, amount) matches Ok(m) && final(self).balances@ == m)
                    &&& ev == (Transfer { from: caller, to, amount })
                    &&& to != caller ==> final(self).spec_balance_of(caller) == old(self).spec_balance_of(caller) - amount
                    &&& to != caller ==> final(self).spec_balance_of(to) == old(self).spec_balance_of(to) + amount
                    &&& to == caller ==> final(self).spec_balance_of(to) == old(self).spec_balance_of(to)
                    &&& forall|x: AccountId|
                        x != caller && x != to ==> final(self).spec_balance_of(x) == old(self).spec_balance_of(x)
                    &&& old(self).same_allowances(*final(self))
                    &&& old(self).same_admin(*final(self))
                },
                Err(e) => {
                    &&& old(self).spec_transfer_outcome(caller, to, amount) == Err::<
                        Map<AccountId, u128>,
                        TokenError,
                    >(e)
                    &&& *final(self) == *old(self)
                },
            },
    {
        self.move_balance(caller, to, amount)
    }

    /// The single atomic move primitive behind `transfer` and
    /// `transfer_from`: debit `from`, credit `to` out of the debited
    /// state, all checks before any write.
    fn move_balance(&mut self, from: AccountId, to: AccountId, amount: u128) -> (r: Result<
        Transfer,
        TokenError,
    >)
        ensures
            match r {
                Ok(ev) => {
                    &&& (old(self).spec_transfer_outcome(from, to, amount) matches Ok(m) && final(self).balances@ == m)
                    &&& ev == (Transfer { from, to, amount })
                    &&& to != from ==> final(self).spec_balance_of(from) == old(self).spec_balance_of(from) - amount
                    &&& to != from ==> final(self).spec_balance_of(to) == old(self).spec_balance_of(to) + amount
                    &&& to == from ==> final(self).spec_balance_of(to) == old(self).spec_balance_of(to)
                    &&& forall|x: AccountId|
                        x != from && x != to ==> final(self).spec_balance_of(x) == old(self).spec_balance_of(x)
                    &&& old(self).same_allowances(*final(self))
                    &&& old(self).same_admin(*final(self))
                },
                Err(e) => {
                    &&& old(self).spec_transfer_outcome(from, to, amount) == Err::<
                        Map<AccountId, u128>,
                        TokenError,
                    >(e)
                    &&& *final(self) == *old(self)
                },
            },
    {
        if let Err(e) = self.ensure_not_paused() {
            return Err(e);
        }
        if let Err(e) = self.ensure_not_blacklisted(from) {
            return Err(e);
        }
        if let Err(e) = self.ensure_not_blacklisted(to) {
            return Err(e);
        }
        let from_balance = self.balance_of(from);
        if amount > from_balance {
            return Err(TokenError::InsufficientBalance);
        }
        let debited = from_balance - amount;
        let to_balance = if to == from {
            debited
        } else {
            self.balance_of(to)
        };
        if amount > u128::MAX - to_balance {
            return Err(TokenError::Overflow);
        }
        self.balances.insert(from, debited);
        self.balances.insert(to, to_balance + amount);
        Ok(Transfer { from, to, amount })
    }

    /// Overwrites the caller's allowance for `spender` with `amount`.
    /// Refused while paused or for a blacklisted caller. Emits the
    /// returned Approval record.
    pub fn approve(&mut self, caller: AccountId, spender: AccountId, amount: u128) -> (r: Result<
        Approval,
        TokenError,
    >)
        ensures
            match r {
                Ok(ev) => {
                    &&& (old(self).spec_approve_outcome(caller, spender, amount) matches Ok(m)
                        && final(self).allowances@ == m)
                    &&& ev == (Approval { owner: caller, spender, amount })
                    &&& final(self).spec_allowance(caller, spender) == amount
                    &&& forall|o2: AccountId, s2: AccountId|
                        !(o2 == caller && s2 == spender) ==> final(self).spec_allowance(o2, s2)
                            == old(self).spec_allowance(o2, s2)
                    &&& old(self).same_balances(*final(self))
                    &&& old(self).same_admin(*final(self))
                },
                Err(e) => {
                    &&& old(self).spec_approve_outcome(caller, spender, amount) == Err::<
                        Map<u128, u128>,
                        TokenError,
                    >(e)
                    &&& *final(self) == *old(self)
                },
            },
    {
        if let Err(e) = self.ensure_not_paused() {
            return Err(e);
        }
        if let Err(e) = self.ensure_not_blacklisted(caller) {
            return Err(e);
        }
        let key = pair_key(caller, spender);
        self.allowances.insert(key, amount);
        proof {
            assert forall|o2: AccountId, s2: AccountId|
                !(o2 == caller && s2 == spender) implies self.spec_allowance(o2, s2) == old(self).spec_allowance(o2, s2) by {
                lemma_pair_key_injective(o2, s2, caller, spender);
            }
        }
        Ok(Approval { owner: caller, spender, amount })
    }

    /// Moves `amount` from `from` to `to` on the strength of the
    /// allowance `from` granted the caller, decrementing that
    /// allowance by exactly the amount moved. Refused while paused or
    /// when the caller, source, or destination is blacklisted. Emits
    /// the returned Transfer record.
    pub fn transfer_from(
        &mut self,
        caller: AccountId,
        from: AccountId,
        to: AccountId,
        amount: u128,
    ) -> (r: Result<Transfer, TokenError>)
        ensures
            match r {
                Ok(ev) => {
                    &&& (old(self).spec_transfer_from_outcome(caller, from, to, amount) matches Ok(
                        p,
                    ) && final(self).balances@ == p.0 && final(self).allowances@ == p.1)
                    &&& ev == (Transfer { from, to, amount })
                    &&& final(self).spec_allowance(from, caller) == old(self).spec_allowance(
                        from,
                        caller,
                    ) - amount
                    &&& forall|o2: AccountId, s2: AccountId|
                        !(o2 == from && s2 == caller) ==> final(self).spec_allowance(o2, s2) == old(self).spec_allowance(o2, s2)
                    &&& to != from ==> final(self).spec_balance_of(from) == old(self).spec_balance_of(from) - amount
                    &&& to != from ==> final(self).spec_balance_of(to) == old(self).spec_balance_of(to) + amount
                    &&& to == from ==> final(self).spec_balance_of(to) == old(self).spec_balance_of(to)
                    &&& forall|x: AccountId|
                        x != from && x != to ==> final(self).spec_balance_of(x) == old(self).spec_balance_of(x)
                    &&& old(self).same_admin(*final(self))
                },
                Err(e) => {
                    &&& old(self).spec_transfer_from_outcome(caller, from, to, amount) == Err::<
                        (Map<AccountId, u128>, Map<u128, u128>),
                        TokenError,
                    >(e)
                    &&& *final(self) == *old(self)
                },
            },
    {
        if let Err(e) = self.ensure_not_paused() {
            return Err(e);
        }
        if let Err(e) = self.ensure_not_blacklisted(caller) {
            return Err(e);
        }
        if let Err(e) = self.ensure_not_blacklisted(from) {
            return Err(e);
        }
        if let Err(e) = self.ensure_not_blacklisted(to) {
            return Err(e);
        }
        let current = self.allowance(from, caller);
        if amount > current {
            return Err(TokenError::AllowanceExceeded);
        }
        let remaining = current - amount;
        match self.move_balance(from, to, amount) {
            Ok(ev) => {
                let key = pair_key(from, caller);
                self.allowances.insert(key, remaining);
                proof {
                    assert forall|o2: AccountId, s2: AccountId|
                        !(o2 == from && s2 == caller) implies self.spec_allowance(o2, s2) == old(self).spec_allowance(o2, s2) by {
                        lemma_pair_key_injective(o2, s2, from, caller);
                    }
                }
                Ok(ev)
            },
            Err(e) => Err(e),
        }
    }
}

} // verus!
