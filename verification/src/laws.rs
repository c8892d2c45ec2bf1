use vstd::prelude::*;
use crate::account::AccountId;
use crate::allowances::allow_get;
use crate::allowances::spec_pair_key;
use crate::errors::TokenError;
use crate::ledger::bal_get;
use crate::ledger::lemma_sum_nonneg;
use crate::ledger::lemma_total_credit;
use crate::ledger::lemma_total_debit;
use crate::ledger::lemma_total_move;
use crate::ledger::spec_debit;
use crate::ledger::spec_sum;
use crate::ledger::spec_total;
use crate::token::SimpleToken;

verus! {

broadcast use vstd::std_specs::hash::group_hash_axioms;

/// No reachable path over-debits a balance: whenever an operation that
/// lowers a balance succeeds, the amount taken from the source was at
/// most what the source held, so no stored balance ever stands for a
/// debit past zero.
pub proof fn lemma_no_overdraft(
    t: SimpleToken,
    caller: AccountId,
    from: AccountId,
    to: AccountId,
    amount: u128,
    recipients: Seq<AccountId>,
    amounts: Seq<u128>,
)
    ensures
        t.spec_transfer_outcome(from, to, amount) is Ok ==> amount <= t.spec_balance_of(from),
        t.spec_burn_outcome(caller, amount) is Ok ==> amount <= t.spec_balance_of(caller),
        t.spec_transfer_from_outcome(caller, from, to, amount) is Ok ==> amount
            <= t.spec_balance_of(from),
        t.spec_batch_outcome(caller, recipients, amounts) is Ok ==> spec_sum(amounts)
            <= t.spec_balance_of(caller),
{
}

/// Minting credits the recipient by exactly the amount, touches no
/// other balance, and raises the total of all balances by exactly the
/// amount.
pub proof fn lemma_mint_adds_supply(t: SimpleToken, caller: AccountId, to: AccountId, amount: u128)
    ensures
        t.spec_mint_outcome(caller, to, amount) matches Ok(m) ==> {
            &&& bal_get(m, to) == t.spec_balance_of(to) + amount
            &&& forall|x: AccountId| x != to ==> bal_get(m, x) == t.spec_balance_of(x)
            &&& spec_total(m) == spec_total(t.balances@) + amount
        },
{
    if t.spec_mint_outcome(caller, to, amount) is Ok {
        lemma_total_credit(t.balances@, to, amount);
    }
}

/// Burning debits the caller by exactly the amount and lowers the
/// total of all balances by exactly the amount; with the guards
/// passed, it fails with the insufficient-balance error exactly when
/// the amount exceeds the caller's balance.
pub proof fn lemma_burn_removes_supply(t: SimpleToken, caller: AccountId, amount: u128)
    ensures
        t.spec_burn_outcome(caller, amount) matches Ok(m) ==> {
            &&& bal_get(m, caller) == t.spec_balance_of(caller) - amount
            &&& forall|x: AccountId| x != caller ==> bal_get(m, x) == t.spec_balance_of(x)
            &&& spec_total(m) == spec_total(t.balances@) - amount
        },
        !t.paused && !t.spec_is_blacklisted(caller) ==> ((t.spec_burn_outcome(caller, amount)
            == Err::<Map<AccountId, u128>, TokenError>(TokenError::InsufficientBalance)) <==> amount
            > t.spec_balance_of(caller)),
{
    if t.spec_burn_outcome(caller, amount) is Ok {
        lemma_total_debit(t.balances@, caller, amount);
    }
}

/// A transfer conserves the total of all balances; for distinct
/// endpoints the source goes down and the destination up by exactly
/// the amount; with the guards passed, it fails with the
/// insufficient-balance error exactly when the amount exceeds the
/// source's balance.
pub proof fn lemma_transfer_conserves(t: SimpleToken, from: AccountId, to: AccountId, amount: u128)
    ensures
        t.spec_transfer_outcome(from, to, amount) matches Ok(m) ==> {
            &&& spec_total(m) == spec_total(t.balances@)
            &&& from != to ==> bal_get(m, from) == t.spec_balance_of(from) - amount
            &&& from != to ==> bal_get(m, to) == t.spec_balance_of(to) + amount
            &&& from == to ==> bal_get(m, to) == t.spec_balance_of(to)
            &&& forall|x: AccountId|
                x != from && x != to ==> bal_get(m, x) == t.spec_balance_of(x)
        },
        !t.paused && !t.spec_is_blacklisted(from) && !t.spec_is_blacklisted(to) ==> ((
        t.spec_transfer_outcome(from, to, amount) == Err::<Map<AccountId, u128>, TokenError>(
            TokenError::InsufficientBalance,
        )) <==> amount > t.spec_balance_of(from)),
{
    if t.spec_transfer_outcome(from, to, amount) is Ok {
        lemma_total_move(t.balances@, from, to, amount);
    }
}

/// Approval overwrites: setting the allowance to one value and then to
/// another leaves exactly the second value, whatever the first was.
pub proof fn lemma_approve_overwrites(
    t1: SimpleToken,
    t2: SimpleToken,
    caller: AccountId,
    spender: AccountId,
    n1: u128,
    n2: u128,
)
    requires
        (t1.spec_approve_outcome(caller, spender, n1) matches Ok(m) && t2.allowances@ == m),
    ensures
        t2.spec_approve_outcome(caller, spender, n2) matches Ok(m2) ==> allow_get(
            m2,
            spec_pair_key(caller, spender),
        ) == n2,
{
}

/// A delegated transfer spends the allowance by exactly the amount
/// moved, conserves the total of all balances, and — with the guards
/// passed — fails with the allowance-exceeded error exactly when the
/// amount exceeds the remaining allowance.
pub proof fn lemma_transfer_from_spends_allowance(
    t: SimpleToken,
    caller: AccountId,
    from: AccountId,
    to: AccountId,
    amount: u128,
)
    ensures
        t.spec_transfer_from_outcome(caller, from, to, amount) matches Ok(p) ==> {
            &&& allow_get(p.1, spec_pair_key(from, caller)) == t.spec_allowance(from, caller)
                - amount
            &&& spec_total(p.0) == spec_total(t.balances@)
            &&& from != to ==> bal_get(p.0, from) == t.spec_balance_of(from) - amount
            &&& from != to ==> bal_get(p.0, to) == t.spec_balance_of(to) + amount
        },
        t.spec_transfer_from_outcome(caller, from, to, amount) is Ok ==> amount <= t.spec_allowance(
            from,
            caller,
        ),
        (!t.paused && !t.spec_is_blacklisted(caller) && !t.spec_is_blacklisted(from)
            && !t.spec_is_blacklisted(to)) ==> ((t.spec_transfer_from_outcome(
            caller,
            from,
            to,
            amount,
        ) == Err::<(Map<AccountId, u128>, Map<u128, u128>), TokenError>(
            TokenError::AllowanceExceeded,
        )) <==> amount > t.spec_allowance(from, caller)),
{
    if t.spec_transfer_from_outcome(caller, from, to, amount) is Ok {
        lemma_total_move(t.balances@, from, to, amount);
    }
}

/// A batch disbursement conserves the total of all balances: the
/// single sender debit equals the sum of every per-recipient credit.
/// The length-mismatch error comes exactly on unequal list lengths,
/// and — guards passed, lengths equal, sum representable — the
/// insufficient-balance error comes exactly when the sender's balance
/// is short of the sum.
pub proof fn lemma_batch_conserves(
    t: SimpleToken,
    sender: AccountId,
    recipients: Seq<AccountId>,
    amounts: Seq<u128>,
)
    ensures
        t.spec_batch_outcome(sender, recipients, amounts) matches Ok(m) ==> spec_total(m)
            == spec_total(t.balances@),
        (t.spec_batch_outcome(sender, recipients, amounts) == Err::<
            Map<AccountId, u128>,
            TokenError,
        >(TokenError::LengthMismatch)) <==> recipients.len() != amounts.len(),
        (!t.paused && !t.spec_is_blacklisted(sender) && recipients.len() == amounts.len()
            && spec_sum(amounts) <= u128::MAX) ==> ((t.spec_batch_outcome(
            sender,
            recipients,
            amounts,
        ) == Err::<Map<AccountId, u128>, TokenError>(TokenError::InsufficientBalance)) <==> spec_sum(
            amounts,
        ) > t.spec_balance_of(sender)),
{
    lemma_sum_nonneg(amounts);
    if !t.paused && !t.spec_is_blacklisted(sender) && recipients.len() == amounts.len()
        && spec_sum(amounts) <= u128::MAX && spec_sum(amounts) <= t.spec_balance_of(sender) {
        let debited = spec_debit(t.balances@, sender, spec_sum(amounts) as u128);
        t.lemma_apply_credits_err_kind(debited, recipients, amounts);
        if t.spec_batch_outcome(sender, recipients, amounts) is Ok {
            lemma_total_debit(t.balances@, sender, spec_sum(amounts) as u128);
            assert(debited.dom() =~= t.balances@.dom().insert(sender));
            t.lemma_apply_credits_total(debited, recipients, amounts);
        }
    }
}

/// While paused, every balance- or allowance-mutating operation is
/// refused with the paused error, whoever calls; the pause toggles and
/// the read-only queries are untouched by the flag.
pub proof fn lemma_paused_blocks(
    t: SimpleToken,
    caller: AccountId,
    from: AccountId,
    to: AccountId,
    spender: AccountId,
    amount: u128,
    recipients: Seq<AccountId>,
    amounts: Seq<u128>,
)
    requires
        t.paused,
    ensures
        caller == t.owner ==> t.spec_mint_outcome(caller, to, amount) == Err::<
            Map<AccountId, u128>,
            TokenError,
        >(TokenError::Paused),
        t.spec_transfer_outcome(from, to, amount) == Err::<Map<AccountId, u128>, TokenError>(
            TokenError::Paused,
        ),
        t.spec_burn_outcome(caller, amount) == Err::<Map<AccountId, u128>, TokenError>(
            TokenError::Paused,
        ),
        t.spec_approve_outcome(caller, spender, amount) == Err::<Map<u128, u128>, TokenError>(
            TokenError::Paused,
        ),
        t.spec_transfer_from_outcome(caller, from, to, amount) == Err::<
            (Map<AccountId, u128>, Map<u128, u128>),
            TokenError,
        >(TokenError::Paused),
        recipients.len() == amounts.len() ==> t.spec_batch_outcome(caller, recipients, amounts)
            == Err::<Map<AccountId, u128>, TokenError>(TokenError::Paused),
{
}

/// Naming a blacklisted account as source, destination, mint
/// recipient, or allowance principal gets the compliance error; a
/// batch that lists a blacklisted recipient anywhere cannot succeed.
/// Blacklisting itself keeps every balance (see `blacklist`'s
/// contract).
pub proof fn lemma_blacklist_blocks(
    t: SimpleToken,
    caller: AccountId,
    from: AccountId,
    to: AccountId,
    spender: AccountId,
    amount: u128,
    recipients: Seq<AccountId>,
    amounts: Seq<u128>,
    i: int,
)
    requires
        !t.paused,
    ensures
        caller == t.owner && t.spec_is_blacklisted(to) ==> t.spec_mint_outcome(caller, to, amount)
            == Err::<Map<AccountId, u128>, TokenError>(TokenError::Blacklisted),
        t.spec_is_blacklisted(from) || t.spec_is_blacklisted(to) ==> t.spec_transfer_outcome(
            from,
            to,
            amount,
        ) == Err::<Map<AccountId, u128>, TokenError>(TokenError::Blacklisted),
        t.spec_is_blacklisted(caller) ==> t.spec_burn_outcome(caller, amount) == Err::<
            Map<AccountId, u128>,
            TokenError,
        >(TokenError::Blacklisted),
        t.spec_is_blacklisted(caller) ==> t.spec_approve_outcome(caller, spender, amount) == Err::<
            Map<u128, u128>,
            TokenError,
        >(TokenError::Blacklisted),
        (t.spec_is_blacklisted(caller) || t.spec_is_blacklisted(from) || t.spec_is_blacklisted(to))
            ==> t.spec_transfer_from_outcome(caller, from, to, amount) == Err::<
            (Map<AccountId, u128>, Map<u128, u128>),
            TokenError,
        >(TokenError::Blacklisted),
        (recipients.len() == amounts.len() && t.spec_is_blacklisted(caller))
            ==> t.spec_batch_outcome(caller, recipients, amounts) == Err::<
            Map<AccountId, u128>,
            TokenError,
        >(TokenError::Blacklisted),
        (0 <= i < recipients.len() && recipients.len() == amounts.len() && t.spec_is_blacklisted(
            recipients[i],
        )) ==> t.spec_batch_outcome(caller, recipients, amounts) is Err,
{
    if 0 <= i < recipients.len() && recipients.len() == amounts.len() && t.spec_is_blacklisted(
        recipients[i],
    ) {
        if !t.spec_is_blacklisted(caller) && spec_sum(amounts) <= u128::MAX && spec_sum(amounts)
            <= t.spec_balance_of(caller) {
            let debited = spec_debit(t.balances@, caller, spec_sum(amounts) as u128);
            t.lemma_apply_credits_blacklisted(debited, recipients, amounts, i);
        }
    }
}

/// Minting is owner-only: every other caller gets the authorization
/// error. The same holds of pause, unpause, blacklist and unblacklist
/// through their own contracts.
pub proof fn lemma_owner_only_mint(t: SimpleToken, caller: AccountId, to: AccountId, amount: u128)
    ensures
        caller != t.owner ==> t.spec_mint_outcome(caller, to, amount) == Err::<
            Map<AccountId, u128>,
            TokenError,
        >(TokenError::Authorization),
{
}

} // verus!
