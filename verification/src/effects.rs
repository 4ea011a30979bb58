//! The observable effect of the pipeline's operations on ledger state, as
//! plain values: issuance and transfer over 64-bit balances, and the
//! registry of derived holding accounts, whose creation is idempotent.

use vstd::prelude::*;

use crate::errors::ProvisionError;
use crate::identity::spec_contains_addr;
use crate::identity::Address;

verus! {

/// Issues `amount` smallest units to a holding account: the balance and
/// the total supply both grow by exactly `amount`.
pub fn apply_mint(balance: u64, supply: u64, amount: u64) -> (r: Result<
    (u64, u64),
    ProvisionError,
>)
    ensures
        match r {
            Ok((b, s)) => b == balance + amount && s == supply + amount,
            Err(e) => e == ProvisionError::AmountOverflow && (balance + amount > u64::MAX || supply
                + amount > u64::MAX),
        },
{
    let b = match balance.checked_add(amount) {
        Some(b) => b,
        None => {
            return Err(ProvisionError::AmountOverflow);
        },
    };
    let s = match supply.checked_add(amount) {
        Some(s) => s,
        None => {
            return Err(ProvisionError::AmountOverflow);
        },
    };
    Ok((b, s))
}

/// Moves `amount` smallest units from a sender to a recipient balance.
/// The sender decreases and the recipient increases by exactly `amount`,
/// so the sum of the two balances — the supply they hold — is conserved.
pub fn apply_transfer(sender: u64, recipient: u64, amount: u64) -> (r: Result<
    (u64, u64),
    ProvisionError,
>)
    ensures
        match r {
            Ok((s, t)) => s == sender - amount && t == recipient + amount && s + t == sender
                + recipient,
            Err(e) => (e == ProvisionError::InsufficientFunds && amount > sender) || (e
                == ProvisionError::AmountOverflow && amount <= sender && recipient + amount
                > u64::MAX),
        },
{
    if amount > sender {
        return Err(ProvisionError::InsufficientFunds);
    }
    let t = match recipient.checked_add(amount) {
        Some(t) => t,
        None => {
            return Err(ProvisionError::AmountOverflow);
        },
    };
    Ok((sender - amount, t))
}

/// The registry of derived holding accounts after asking for one for `a`:
/// unchanged when it already exists, extended by it otherwise. Creation
/// never fails on an existing account and never duplicates it.
pub open spec fn spec_register_derived(accounts: Seq<Address>, a: Address) -> Seq<Address> {
    if spec_contains_addr(accounts, a@) {
        accounts
    } else {
        accounts.push(a)
    }
}

/// Records a derived holding account, idempotently. Returns whether a new
/// account was created.
pub fn register_derived(accounts: &mut Vec<Address>, a: &Address) -> (created: bool)
    ensures
        final(accounts)@ == spec_register_derived(old(accounts)@, *a),
        created == !spec_contains_addr(old(accounts)@, a@),
{
    if crate::identity::contains_addr(accounts, a) {
        false
    } else {
        accounts.push(*a);
        true
    }
}

/// Asking twice for the same derived account changes nothing the second
/// time: the registry after two requests equals the registry after one,
/// so repetition neither fails nor creates a duplicate.
pub proof fn lemma_register_derived_idempotent(accounts: Seq<Address>, a: Address)
    ensures
        spec_register_derived(spec_register_derived(accounts, a), a) == spec_register_derived(
            accounts,
            a,
        ),
{
    let once = spec_register_derived(accounts, a);
    if spec_contains_addr(accounts, a@) {
    } else {
        assert(once == accounts.push(a));
        assert(once[accounts.len() as int] == a);
        assert(spec_contains_addr(once, a@));
    }
}

} // verus!
