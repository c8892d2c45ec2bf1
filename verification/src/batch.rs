use vstd::prelude::*;
use std::collections::HashMap;
use crate::account::AccountId;
use crate::errors::TokenError;
use crate::events::Transfer;
use crate::ledger::bal_get;
use crate::ledger::lemma_sum_take_le;
use crate::ledger::lemma_total_credit;
use crate::ledger::spec_credit;
use crate::ledger::spec_debit;
use crate::ledger::spec_sum;
use crate::ledger::spec_total;
use crate::token::SimpleToken;

verus! {

broadcast use vstd::std_specs::hash::group_hash_axioms;

impl SimpleToken {
    /// The per-recipient credit steps of a batch transfer, applied to
    /// `bal` in input order: each step checks the recipient's
    /// blacklist flag, then checked-adds the amount to the recipient's
    /// running balance. The first failing step's error is the result
    /// for the whole list.
    pub open spec fn spec_apply_credits(
        self,
        bal: Map<AccountId, u128>,
        recipients: Seq<AccountId>,
        amounts: Seq<u128>,
    ) -> Result<Map<AccountId, u128>, TokenError>
        recommends
            recipients.len() == amounts.len(),
        decreases recipients.len(),
    {
        if recipients.len() == 0 {
            Ok(bal)
        } else {
            match self.spec_apply_credits(bal, recipients.drop_last(), amounts.drop_last()) {
                Ok(m) => {
                    let to = recipients.last();
                    let amount = amounts.last();
                    if self.spec_is_blacklisted(to) {
                        Err(TokenError::Blacklisted)
                    } else if bal_get(m, to) + amount > u128::MAX {
                        Err(TokenError::Overflow)
                    } else {
                        Ok(spec_credit(m, to, amount))
                    }
                },
                Err(e) => Err(e),
            }
        }
    }

    /// Everything `batch_transfer` decides, in guard order: either the
    /// balances map after the single sender debit and every
    /// per-recipient credit, or the first error met.
    pub open spec fn spec_batch_outcome(
        self,
        sender: AccountId,
        recipients: Seq<AccountId>,
        amounts: Seq<u128>,
    ) -> Result<Map<AccountId, u128>, TokenError> {
        if recipients.len() != amounts.len() {
            Err(TokenError::LengthMismatch)
        } else if self.paused {
            Err(TokenError::Paused)
        } else if self.spec_is_blacklisted(sender) {
            Err(TokenError::Blacklisted)
        } else if spec_sum(amounts) > u128::MAX {
            Err(TokenError::Overflow)
        } else if spec_sum(amounts) > self.spec_balance_of(sender) {
            Err(TokenError::InsufficientBalance)
        } else {
            self.spec_apply_credits(
                spec_debit(self.balances@, sender, spec_sum(amounts) as u128),
                recipients,
                amounts,
            )
        }
    }

    /// Once a prefix of the credit steps has failed, the whole list
    /// fails with that same first error.
    pub proof fn lemma_apply_credits_prefix_err(
        self,
        bal: Map<AccountId, u128>,
        recipients: Seq<AccountId>,
        amounts: Seq<u128>,
        j: int,
    )
        requires
            0 <= j <= recipients.len(),
            recipients.len() == amounts.len(),
            self.spec_apply_credits(bal, recipients.take(j), amounts.take(j)) is Err,
        ensures
            self.spec_apply_credits(bal, recipients, amounts) == self.spec_apply_credits(
                bal,
                recipients.take(j),
                amounts.take(j),
            ),
        decreases recipients.len() - j,
    {
        if j < recipients.len() {
            assert(recipients.take(j + 1).drop_last() =~= recipients.take(j));
            assert(amounts.take(j + 1).drop_last() =~= amounts.take(j));
            self.lemma_apply_credits_prefix_err(bal, recipients, amounts, j + 1);
        } else {
            assert(recipients.take(j) =~= recipients);
            assert(amounts.take(j) =~= amounts);
        }
    }

    /// A list that names a blacklisted recipient anywhere can never
    /// have all its credit steps succeed.
    pub proof fn lemma_apply_credits_blacklisted(
        self,
        bal: Map<AccountId, u128>,
        recipients: Seq<AccountId>,
        amounts: Seq<u128>,
        i: int,
    )
        requires
            0 <= i < recipients.len(),
            recipients.len() == amounts.len(),
            self.spec_is_blacklisted(recipients[i]),
        ensures
            self.spec_apply_credits(bal, recipients, amounts) is Err,
        decreases recipients.len(),
    {
        if i < recipients.len() - 1 {
            assert(recipients.drop_last()[i] == recipients[i]);
            self.lemma_apply_credits_blacklisted(
                bal,
                recipients.drop_last(),
                amounts.drop_last(),
                i,
            );
        }
    }

    /// The credit steps themselves fail only on a blacklisted
    /// recipient or an overflowing recipient balance.
    pub proof fn lemma_apply_credits_err_kind(
        self,
        bal: Map<AccountId, u128>,
        recipients: Seq<AccountId>,
        amounts: Seq<u128>,
    )
        ensures
            self.spec_apply_credits(bal, recipients, amounts) matches Err(e) ==> (e
                == TokenError::Blacklisted || e == TokenError::Overflow),
        decreases recipients.len(),
    {
        if recipients.len() > 0 {
            self.lemma_apply_credits_err_kind(bal, recipients.drop_last(), amounts.drop_last());
        }
    }

    /// When every credit step succeeds, the result holds the starting
    /// total plus the sum of all credited amounts, over the same
    /// finite footprint.
    pub proof fn lemma_apply_credits_total(
        self,
        bal: Map<AccountId, u128>,
        recipients: Seq<AccountId>,
        amounts: Seq<u128>,
    )
        requires
            bal.dom().finite(),
            recipients.len() == amounts.len(),
        ensures
            self.spec_apply_credits(bal, recipients, amounts) matches Ok(m) ==> spec_total(m)
                == spec_total(bal) + spec_sum(amounts) && m.dom().finite(),
        decreases recipients.len(),
    {
        if recipients.len() > 0 {
            self.lemma_apply_credits_total(bal, recipients.drop_last(), amounts.drop_last());
            match self.spec_apply_credits(bal, recipients.drop_last(), amounts.drop_last()) {
                Ok(m0) => {
                    let to = recipients.last();
                    let amount = amounts.last();
                    if !self.spec_is_blacklisted(to) && bal_get(m0, to) + amount <= u128::MAX {
                        lemma_total_credit(m0, to, amount);
                        assert(spec_credit(m0, to, amount).dom() =~= m0.dom().insert(to));
                    }
                },
                Err(_) => {},
            }
        }
    }

    /// Disburses `amounts[i]` to `recipients[i]` for every entry, in
    /// input order, debiting the caller once by the total. Refused
    /// while paused, for a blacklisted caller or recipient, on a
    /// length mismatch, and on any checked-arithmetic failure; every
    /// failure is all-or-nothing. Emits one Transfer record per entry,
    /// in input order.
    #[verifier::loop_isolation(false)]
    pub fn batch_transfer(
        &mut self,
        caller: AccountId,
        recipients: Vec<AccountId>,
        amounts: Vec<u128>,
    ) -> (r: Result<Vec<Transfer>, TokenError>)
        ensures
            match r {
                Ok(evs) => {
                    &&& (old(self).spec_batch_outcome(caller, recipients@, amounts@) matches Ok(m)
                        && final(self).balances@ == m)
                    &&& evs@.len() == recipients@.len()
                    &&& forall|i: int|
                        0 <= i < evs@.len() ==> evs@[i] == (Transfer {
                            from: caller,
                            to: recipients@[i],
                            amount: amounts@[i],
                        })
                    &&& old(self).same_allowances(*final(self))
                    &&& old(self).same_admin(*final(self))
                },
                Err(e) => {
                    &&& old(self).spec_batch_outcome(caller, recipients@, amounts@) == Err::<
                        Map<AccountId, u128>,
                        TokenError,
                    >(e)
                    &&& *final(self) == *old(self)
                },
            },
    {
        if recipients.len() != amounts.len() {
            return Err(TokenError::LengthMismatch);
        }
        if let Err(e) = self.ensure_not_paused() {
            return Err(e);
        }
        if let Err(e) = self.ensure_not_blacklisted(caller) {
            return Err(e);
        }
        let n: usize = amounts.len();

        let mut total: u128 = 0;
        let mut i: usize = 0;
        while i < n
            invariant
                0 <= i <= n,
                n == amounts@.len(),
                total == spec_sum(amounts@.take(i as int)),
            decreases n - i,
        {
            proof {
                assert(amounts@.take(i as int + 1).drop_last() =~= amounts@.take(i as int));
                assert(amounts@.take(i as int + 1).last() == amounts@[i as int]);
            }
            let a = amounts[i];
            if a > u128::MAX - total {
                proof {
                    lemma_sum_take_le(amounts@, i as int + 1);
                }
                return Err(TokenError::Overflow);
            }
            total = total + a;
            i = i + 1;
        }
        proof {
            assert(amounts@.take(n as int) =~= amounts@);
        }

        let sender_balance = self.balance_of(caller);
        if total > sender_balance {
            return Err(TokenError::InsufficientBalance);
        }

        let mut staged = self.balances.clone();
        staged.insert(caller, sender_balance - total);
        let ghost debited = spec_debit(self.balances@, caller, total);
        let mut events: Vec<Transfer> = Vec::new();

        let mut j: usize = 0;
        while j < n
            invariant
                0 <= j <= n,
                n == recipients@.len(),
                n == amounts@.len(),
                self.spec_apply_credits(debited, recipients@.take(j as int), amounts@.take(j as int))
                    == Ok::<Map<AccountId, u128>, TokenError>(staged@),
                events@.len() == j as int,
                forall|k: int|
                    0 <= k < j as int ==> events@[k] == (Transfer {
                        from: caller,
                        to: recipients@[k],
                        amount: amounts@[k],
                    }),
            decreases n - j,
        {
            proof {
                assert(recipients@.take(j as int + 1).drop_last() =~= recipients@.take(j as int));
                assert(amounts@.take(j as int + 1).drop_last() =~= amounts@.take(j as int));
                assert(recipients@.take(j as int + 1).last() == recipients@[j as int]);
                assert(amounts@.take(j as int + 1).last() == amounts@[j as int]);
            }
            let to = recipients[j];
            let amount = amounts[j];
            if let Err(e) = self.ensure_not_blacklisted(to) {
                proof {
                    self.lemma_apply_credits_prefix_err(
                        debited,
                        recipients@,
                        amounts@,
                        j as int + 1,
                    );
                }
                return Err(e);
            }
            let cur = match staged.get(&to) {
                Some(v) => *v,
                None => 0,
            };
            if amount > u128::MAX - cur {
                proof {
                    self.lemma_apply_credits_prefix_err(
                        debited,
                        recipients@,
                        amounts@,
                        j as int + 1,
                    );
                }
                return Err(TokenError::Overflow);
            }
            staged.insert(to, cur + amount);
            events.push(Transfer { from: caller, to, amount });
            j = j + 1;
        }
        proof {
            assert(recipients@.take(n as int) =~= recipients@);
            assert(amounts@.take(n as int) =~= amounts@);
        }
        self.balances = staged;
        Ok(events)
    }
}

} // verus!
