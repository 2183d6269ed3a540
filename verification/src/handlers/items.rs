//! Line items: whether a month takes changes, and which savings balance
//! a change to an item moves.

use crate::text::same_text;
use vstd::prelude::*;

verus! {

/// The savings destination of an item that names none: `none`.
pub fn default_savings_destination() -> (destination: String)
    ensures
        destination@ == "none"@,
{
    "none".to_owned()
}

/// Why a month takes no change.
#[derive(Clone, Copy, Debug, PartialEq, Eq, Structural)]
pub enum MonthError {
    /// The principal has no such month.
    NotFound,
    /// The month is closed.
    Closed,
}

/// Whether the principal may see the month: `found` says whether the
/// month is one of the principal's.
pub fn verify_month_access(found: bool) -> (access: Result<(), MonthError>)
    ensures
        access == if found {
            Ok::<(), MonthError>(())
        } else {
            Err::<(), MonthError>(MonthError::NotFound)
        },
{
    if found {
        Ok(())
    } else {
        Err(MonthError::NotFound)
    }
}

/// Whether the principal may change the month: `closed` is nothing where
/// the month is not one of the principal's, else whether it is closed.
pub fn verify_month_not_closed(closed: Option<bool>) -> (access: Result<(), MonthError>)
    ensures
        access == match closed {
            Some(true) => Err::<(), MonthError>(MonthError::Closed),
            Some(false) => Ok::<(), MonthError>(()),
            None => Err::<(), MonthError>(MonthError::NotFound),
        },
{
    match closed {
        Some(true) => Err(MonthError::Closed),
        Some(false) => Ok(()),
        None => Err(MonthError::NotFound),
    }
}

/// A savings balance of a principal.
#[derive(Clone, Copy, Debug, PartialEq, Eq, Structural)]
pub enum SavingsAccount {
    Savings,
    Retirement,
}

/// The balance that a savings destination names: `savings` names the
/// savings, `retirement_savings` the retirement savings, anything else
/// none.
pub open spec fn account_named(destination: Seq<char>) -> Option<SavingsAccount> {
    if destination == "savings"@ {
        Some(SavingsAccount::Savings)
    } else if destination == "retirement_savings"@ {
        Some(SavingsAccount::Retirement)
    } else {
        None
    }
}

/// The balance that a savings destination names.
pub fn savings_account(destination: &str) -> (account: Option<SavingsAccount>)
    ensures
        account == account_named(destination@),
{
    if same_text(destination, "savings") {
        Some(SavingsAccount::Savings)
    } else if same_text(destination, "retirement_savings") {
        Some(SavingsAccount::Retirement)
    } else {
        None
    }
}

/// What a change to an item does to the savings balances: the balance
/// that loses the item's old amount and the balance that gains its new
/// one.
#[derive(Clone, Copy, Debug, PartialEq, Eq, Structural)]
pub struct BalanceMoves {
    pub debit: Option<SavingsAccount>,
    pub credit: Option<SavingsAccount>,
}

/// A new item adds its amount to the balance that its destination names.
pub fn moves_on_create(destination: &str) -> (moves: BalanceMoves)
    ensures
        moves == (BalanceMoves { debit: None, credit: account_named(destination@) }),
{
    BalanceMoves { debit: None, credit: savings_account(destination) }
}

/// A deleted item takes its amount from the balance that its destination
/// names.
pub fn moves_on_delete(destination: &str) -> (moves: BalanceMoves)
    ensures
        moves == (BalanceMoves { debit: account_named(destination@), credit: None }),
{
    BalanceMoves { debit: savings_account(destination), credit: None }
}

/// Whether an update moves balances: the destination changes, or the
/// amount changes on an item whose destination is not `none`.
pub open spec fn rebalances(old: Seq<char>, new: Seq<char>, amount_changed: bool) -> bool {
    old != new || (old != "none"@ && amount_changed)
}

/// An updated item, where it moves balances at all, takes its old amount
/// from the balance that its old destination names and adds its new
/// amount to the balance that its new destination names.
pub fn moves_on_update(old: &str, new: &str, amount_changed: bool) -> (moves: BalanceMoves)
    ensures
        moves == if rebalances(old@, new@, amount_changed) {
            BalanceMoves { debit: account_named(old@), credit: account_named(new@) }
        } else {
            BalanceMoves { debit: None, credit: None }
        },
{
    if !same_text(old, new) || (!same_text(old, "none") && amount_changed) {
        BalanceMoves { debit: savings_account(old), credit: savings_account(new) }
    } else {
        BalanceMoves { debit: None, credit: None }
    }
}

} // verus!
