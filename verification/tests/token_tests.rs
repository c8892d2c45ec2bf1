use simple_token::AccountId;
use simple_token::Approval;
use simple_token::Burn;
use simple_token::Mint;
use simple_token::SimpleToken;
use simple_token::TokenError;
use simple_token::Transfer;

const OWNER: AccountId = 1;
const ALICE: AccountId = 2;
const BOB: AccountId = 3;
const CAROL: AccountId = 4;

fn fresh() -> SimpleToken {
    SimpleToken::new(OWNER)
}

#[test]
fn new_ledger_is_empty() {
    let t = fresh();
    assert_eq!(t.balance_of(OWNER), 0);
    assert_eq!(t.balance_of(ALICE), 0);
    assert_eq!(t.allowance(ALICE, BOB), 0);
    assert!(!t.is_paused());
    assert!(!t.is_blacklisted(ALICE));
}

#[test]
fn mint_credits_recipient_exactly() {
    let mut t = fresh();
    let ev = t.mint(OWNER, ALICE, 100).unwrap();
    assert_eq!(ev, Mint { to: ALICE, amount: 100 });
    assert_eq!(t.balance_of(ALICE), 100);
    assert_eq!(t.balance_of(BOB), 0);
    t.mint(OWNER, ALICE, 25).unwrap();
    assert_eq!(t.balance_of(ALICE), 125);
}

#[test]
fn mint_requires_owner() {
    let mut t = fresh();
    assert_eq!(t.mint(ALICE, ALICE, 100).unwrap_err(), TokenError::Authorization);
    assert_eq!(t.balance_of(ALICE), 0);
}

#[test]
fn mint_overflow_is_refused() {
    let mut t = fresh();
    t.mint(OWNER, ALICE, u128::MAX).unwrap();
    assert_eq!(t.mint(OWNER, ALICE, 1).unwrap_err(), TokenError::Overflow);
    assert_eq!(t.balance_of(ALICE), u128::MAX);
}

#[test]
fn transfer_conserves_balances() {
    let mut t = fresh();
    t.mint(OWNER, ALICE, 100).unwrap();
    let ev = t.transfer(ALICE, BOB, 40).unwrap();
    assert_eq!(ev, Transfer { from: ALICE, to: BOB, amount: 40 });
    assert_eq!(t.balance_of(ALICE), 60);
    assert_eq!(t.balance_of(BOB), 40);
    assert_eq!(t.balance_of(ALICE) + t.balance_of(BOB), 100);
}

#[test]
fn transfer_insufficient_balance() {
    let mut t = fresh();
    t.mint(OWNER, ALICE, 10).unwrap();
    assert_eq!(t.transfer(ALICE, BOB, 11).unwrap_err(), TokenError::InsufficientBalance);
    assert_eq!(t.balance_of(ALICE), 10);
    assert_eq!(t.balance_of(BOB), 0);
}

#[test]
fn transfer_to_self_changes_nothing() {
    let mut t = fresh();
    t.mint(OWNER, ALICE, 50).unwrap();
    t.transfer(ALICE, ALICE, 20).unwrap();
    assert_eq!(t.balance_of(ALICE), 50);
}

#[test]
fn transfer_overflow_on_recipient() {
    let mut t = fresh();
    t.mint(OWNER, ALICE, u128::MAX).unwrap();
    t.mint(OWNER, BOB, 5).unwrap();
    assert_eq!(t.transfer(BOB, ALICE, 1).unwrap_err(), TokenError::Overflow);
    assert_eq!(t.balance_of(ALICE), u128::MAX);
    assert_eq!(t.balance_of(BOB), 5);
}

#[test]
fn burn_debits_caller_exactly() {
    let mut t = fresh();
    t.mint(OWNER, ALICE, 100).unwrap();
    let ev = t.burn(ALICE, 40).unwrap();
    assert_eq!(ev, Burn { from: ALICE, amount: 40 });
    assert_eq!(t.balance_of(ALICE), 60);
}

#[test]
fn burn_insufficient_balance() {
    let mut t = fresh();
    t.mint(OWNER, ALICE, 10).unwrap();
    assert_eq!(t.burn(ALICE, 11).unwrap_err(), TokenError::InsufficientBalance);
    assert_eq!(t.balance_of(ALICE), 10);
}

#[test]
fn approve_overwrites_not_adds() {
    let mut t = fresh();
    let ev = t.approve(ALICE, BOB, 30).unwrap();
    assert_eq!(ev, Approval { owner: ALICE, spender: BOB, amount: 30 });
    assert_eq!(t.allowance(ALICE, BOB), 30);
    t.approve(ALICE, BOB, 10).unwrap();
    assert_eq!(t.allowance(ALICE, BOB), 10);
    assert_eq!(t.allowance(BOB, ALICE), 0);
}

#[test]
fn transfer_from_spends_allowance_exactly() {
    let mut t = fresh();
    t.mint(OWNER, ALICE, 100).unwrap();
    t.approve(ALICE, BOB, 30).unwrap();
    let ev = t.transfer_from(BOB, ALICE, CAROL, 25).unwrap();
    assert_eq!(ev, Transfer { from: ALICE, to: CAROL, amount: 25 });
    assert_eq!(t.allowance(ALICE, BOB), 5);
    assert_eq!(t.balance_of(ALICE), 75);
    assert_eq!(t.balance_of(CAROL), 25);
}

#[test]
fn transfer_from_allowance_exceeded() {
    let mut t = fresh();
    t.mint(OWNER, ALICE, 100).unwrap();
    t.approve(ALICE, BOB, 30).unwrap();
    assert_eq!(t.transfer_from(BOB, ALICE, CAROL, 31).unwrap_err(), TokenError::AllowanceExceeded);
    assert_eq!(t.allowance(ALICE, BOB), 30);
    assert_eq!(t.balance_of(ALICE), 100);
}

#[test]
fn transfer_from_insufficient_balance() {
    let mut t = fresh();
    t.mint(OWNER, ALICE, 10).unwrap();
    t.approve(ALICE, BOB, 30).unwrap();
    assert_eq!(
        t.transfer_from(BOB, ALICE, CAROL, 20).unwrap_err(),
        TokenError::InsufficientBalance
    );
    assert_eq!(t.allowance(ALICE, BOB), 30);
    assert_eq!(t.balance_of(ALICE), 10);
}

#[test]
fn batch_transfer_disburses_in_order() {
    let mut t = fresh();
    t.mint(OWNER, ALICE, 12).unwrap();
    let evs = t.batch_transfer(ALICE, vec![BOB, CAROL], vec![5, 7]).unwrap();
    assert_eq!(t.balance_of(ALICE), 0);
    assert_eq!(t.balance_of(BOB), 5);
    assert_eq!(t.balance_of(CAROL), 7);
    assert_eq!(evs.len(), 2);
    assert_eq!(evs[0], Transfer { from: ALICE, to: BOB, amount: 5 });
    assert_eq!(evs[1], Transfer { from: ALICE, to: CAROL, amount: 7 });
}

#[test]
fn batch_transfer_length_mismatch() {
    let mut t = fresh();
    t.mint(OWNER, ALICE, 12).unwrap();
    assert_eq!(
        t.batch_transfer(ALICE, vec![BOB, CAROL], vec![5]).unwrap_err(),
        TokenError::LengthMismatch
    );
    assert_eq!(t.balance_of(ALICE), 12);
}

#[test]
fn batch_length_check_precedes_pause_guard() {
    let mut t = fresh();
    t.mint(OWNER, ALICE, 12).unwrap();
    t.pause(OWNER).unwrap();
    assert_eq!(
        t.batch_transfer(ALICE, vec![BOB], vec![]).unwrap_err(),
        TokenError::LengthMismatch
    );
    assert_eq!(
        t.batch_transfer(ALICE, vec![BOB], vec![5]).unwrap_err(),
        TokenError::Paused
    );
}

#[test]
fn batch_transfer_insufficient_balance() {
    let mut t = fresh();
    t.mint(OWNER, ALICE, 11).unwrap();
    assert_eq!(
        t.batch_transfer(ALICE, vec![BOB, CAROL], vec![5, 7]).unwrap_err(),
        TokenError::InsufficientBalance
    );
    assert_eq!(t.balance_of(ALICE), 11);
    assert_eq!(t.balance_of(BOB), 0);
}

#[test]
fn batch_transfer_sum_overflow() {
    let mut t = fresh();
    t.mint(OWNER, ALICE, 100).unwrap();
    assert_eq!(
        t.batch_transfer(ALICE, vec![BOB, CAROL], vec![u128::MAX, 1]).unwrap_err(),
        TokenError::Overflow
    );
    assert_eq!(t.balance_of(ALICE), 100);
}

#[test]
fn batch_transfer_duplicate_recipient_accumulates() {
    let mut t = fresh();
    t.mint(OWNER, ALICE, 12).unwrap();
    let evs = t.batch_transfer(ALICE, vec![BOB, BOB], vec![5, 7]).unwrap();
    assert_eq!(t.balance_of(BOB), 12);
    assert_eq!(t.balance_of(ALICE), 0);
    assert_eq!(evs.len(), 2);
}

#[test]
fn batch_transfer_empty_lists() {
    let mut t = fresh();
    t.mint(OWNER, ALICE, 12).unwrap();
    let evs = t.batch_transfer(ALICE, vec![], vec![]).unwrap();
    assert!(evs.is_empty());
    assert_eq!(t.balance_of(ALICE), 12);
}

#[test]
fn batch_transfer_blacklisted_recipient_is_all_or_nothing() {
    let mut t = fresh();
    t.mint(OWNER, ALICE, 12).unwrap();
    t.blacklist(OWNER, CAROL).unwrap();
    assert_eq!(
        t.batch_transfer(ALICE, vec![BOB, CAROL], vec![5, 7]).unwrap_err(),
        TokenError::Blacklisted
    );
    assert_eq!(t.balance_of(ALICE), 12);
    assert_eq!(t.balance_of(BOB), 0);
    assert_eq!(t.balance_of(CAROL), 0);
}

#[test]
fn pause_blocks_every_mutation() {
    let mut t = fresh();
    t.mint(OWNER, ALICE, 100).unwrap();
    t.approve(ALICE, BOB, 30).unwrap();
    t.pause(OWNER).unwrap();
    assert!(t.is_paused());
    assert_eq!(t.mint(OWNER, ALICE, 1).unwrap_err(), TokenError::Paused);
    assert_eq!(t.transfer(ALICE, BOB, 1).unwrap_err(), TokenError::Paused);
    assert_eq!(t.burn(ALICE, 1).unwrap_err(), TokenError::Paused);
    assert_eq!(t.approve(ALICE, BOB, 1).unwrap_err(), TokenError::Paused);
    assert_eq!(t.transfer_from(BOB, ALICE, CAROL, 1).unwrap_err(), TokenError::Paused);
    assert_eq!(t.batch_transfer(ALICE, vec![BOB], vec![1]).unwrap_err(), TokenError::Paused);
    // read-only queries still answer
    assert_eq!(t.balance_of(ALICE), 100);
    assert_eq!(t.allowance(ALICE, BOB), 30);
    assert!(!t.is_blacklisted(ALICE));
    // the pause toggles themselves still work
    t.unpause(OWNER).unwrap();
    assert!(!t.is_paused());
    t.transfer(ALICE, BOB, 1).unwrap();
    assert_eq!(t.balance_of(BOB), 1);
}

#[test]
fn admin_operations_require_owner() {
    let mut t = fresh();
    assert_eq!(t.pause(ALICE).unwrap_err(), TokenError::Authorization);
    assert_eq!(t.unpause(ALICE).unwrap_err(), TokenError::Authorization);
    assert_eq!(t.blacklist(ALICE, BOB).unwrap_err(), TokenError::Authorization);
    assert_eq!(t.unblacklist(ALICE, BOB).unwrap_err(), TokenError::Authorization);
    assert!(!t.is_paused());
    assert!(!t.is_blacklisted(BOB));
}

#[test]
fn blacklisted_accounts_are_barred_everywhere() {
    let mut t = fresh();
    t.mint(OWNER, ALICE, 100).unwrap();
    t.mint(OWNER, BOB, 100).unwrap();
    t.approve(ALICE, BOB, 50).unwrap();
    t.blacklist(OWNER, ALICE).unwrap();
    assert!(t.is_blacklisted(ALICE));
    // as mint recipient
    assert_eq!(t.mint(OWNER, ALICE, 1).unwrap_err(), TokenError::Blacklisted);
    // as transfer source and destination
    assert_eq!(t.transfer(ALICE, BOB, 1).unwrap_err(), TokenError::Blacklisted);
    assert_eq!(t.transfer(BOB, ALICE, 1).unwrap_err(), TokenError::Blacklisted);
    // as burner and approver
    assert_eq!(t.burn(ALICE, 1).unwrap_err(), TokenError::Blacklisted);
    assert_eq!(t.approve(ALICE, BOB, 1).unwrap_err(), TokenError::Blacklisted);
    // as delegated-transfer source, and as the acting spender
    assert_eq!(t.transfer_from(BOB, ALICE, CAROL, 1).unwrap_err(), TokenError::Blacklisted);
    t.approve(BOB, ALICE, 50).unwrap();
    assert_eq!(t.transfer_from(ALICE, BOB, CAROL, 1).unwrap_err(), TokenError::Blacklisted);
    // as batch sender
    assert_eq!(t.batch_transfer(ALICE, vec![BOB], vec![1]).unwrap_err(), TokenError::Blacklisted);
}

#[test]
fn blacklisting_preserves_balances() {
    let mut t = fresh();
    t.mint(OWNER, ALICE, 100).unwrap();
    t.blacklist(OWNER, ALICE).unwrap();
    assert_eq!(t.balance_of(ALICE), 100);
    t.unblacklist(OWNER, ALICE).unwrap();
    assert!(!t.is_blacklisted(ALICE));
    t.transfer(ALICE, BOB, 10).unwrap();
    assert_eq!(t.balance_of(ALICE), 90);
    assert_eq!(t.balance_of(BOB), 10);
}

#[test]
fn mint_burn_move_total_supply() {
    let mut t = fresh();
    t.mint(OWNER, ALICE, 100).unwrap();
    t.mint(OWNER, BOB, 50).unwrap();
    t.transfer(ALICE, CAROL, 30).unwrap();
    t.burn(BOB, 20).unwrap();
    let total = t.balance_of(ALICE) + t.balance_of(BOB) + t.balance_of(CAROL);
    assert_eq!(total, 130);
}
