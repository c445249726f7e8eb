use vstd::prelude::*;

use crate::state::Module;
use crate::types::AccountId;
use crate::types::Balance;
use crate::types::Error;

verus! {

/// Balance of an account under a ledger map; absent accounts hold zero.
pub open spec fn map_balance_of(m: Map<AccountId, Balance>, who: AccountId) -> Balance {
    if m.contains_key(who) {
        m[who]
    } else {
        0
    }
}

/// Minting `value` to `who` stays within the balance range.
pub open spec fn spec_issue_ok(m: Map<AccountId, Balance>, who: AccountId, value: Balance) -> bool {
    map_balance_of(m, who) + value <= Balance::MAX
}

/// The ledger after minting `value` to `who`; minting that would overflow
/// the account is rejected by the collaborator and moves nothing.
pub open spec fn spec_issue(m: Map<AccountId, Balance>, who: AccountId, value: Balance) -> Map<
    AccountId,
    Balance,
> {
    if spec_issue_ok(m, who, value) {
        m.insert(who, (map_balance_of(m, who) + value) as Balance)
    } else {
        m
    }
}

/// Moving `value` from `from` to `to` is covered and stays in range.
pub open spec fn spec_transfer_ok(
    m: Map<AccountId, Balance>,
    from: AccountId,
    to: AccountId,
    value: Balance,
) -> bool {
    &&& value <= map_balance_of(m, from)
    &&& (from == to || map_balance_of(m, to) + value <= Balance::MAX)
}

/// The ledger after an atomic movement of `value` from `from` to `to`;
/// a rejected movement moves nothing.
pub open spec fn spec_transfer(
    m: Map<AccountId, Balance>,
    from: AccountId,
    to: AccountId,
    value: Balance,
) -> Map<AccountId, Balance> {
    if !spec_transfer_ok(m, from, to, value) {
        m
    } else if from == to {
        m
    } else {
        m.insert(from, (map_balance_of(m, from) - value) as Balance).insert(
            to,
            (map_balance_of(m, to) + value) as Balance,
        )
    }
}

impl Module {
    /// Free balance of an account in the modelled ledger.
    pub fn free_balance(&self, who: AccountId) -> (r: Balance)
        ensures
            r == self.spec_balance_of(who),
    {
        match self.balances.get(&who) {
            Some(b) => *b,
            None => 0,
        }
    }

    /// Mints `value` into `who`'s free balance.  Returns whether the
    /// collaborator accepted; a mint that would overflow the account is
    /// rejected and moves nothing.
    pub fn issue(&mut self, who: AccountId, value: Balance) -> (ok: bool)
        ensures
            final(self).balances@ == spec_issue(old(self).balances@, who, value),
            ok == spec_issue_ok(old(self).balances@, who, value),
            ok ==> final(self).spec_balance_of(who) == old(self).spec_balance_of(who) + value,
            !ok ==> final(self).balances@ == old(self).balances@,
            forall|a: AccountId|
                a != who ==> #[trigger] final(self).spec_balance_of(a)
                    == old(self).spec_balance_of(a),
            Module::same_config(*old(self), *final(self)),
            Module::same_era_state(*old(self), *final(self)),
            Module::same_stake_state(*old(self), *final(self)),
            Module::same_events(*old(self), *final(self)),
            Module::same_offenders(*old(self), *final(self)),
    {
        let current: Balance = self.free_balance(who);
        match current.checked_add(value) {
            Some(next) => {
                self.balances.insert(who, next);
                true
            },
            None => false,
        }
    }

    /// Moves `value` of free balance from `from` to `to`, atomically and
    /// authoritatively.  The collaborator rejects an uncovered or
    /// overflowing movement, moving nothing.
    pub fn move_free_balance(&mut self, from: AccountId, to: AccountId, value: Balance) -> (r:
        Result<(), Error>)
        ensures
            final(self).balances@ == spec_transfer(old(self).balances@, from, to, value),
            r == if spec_transfer_ok(old(self).balances@, from, to, value) {
                Ok::<(), Error>(())
            } else {
                Err::<(), Error>(Error::TransferError)
            },
            from != to && spec_transfer_ok(old(self).balances@, from, to, value)
                ==> final(self).spec_balance_of(from) == old(self).spec_balance_of(from) - value
                && final(self).spec_balance_of(to) == old(self).spec_balance_of(to) + value,
            forall|a: AccountId|
                a != from && a != to ==> #[trigger] final(self).spec_balance_of(a)
                    == old(self).spec_balance_of(a),
            Module::same_config(*old(self), *final(self)),
            Module::same_era_state(*old(self), *final(self)),
            Module::same_stake_state(*old(self), *final(self)),
            Module::same_events(*old(self), *final(self)),
            Module::same_offenders(*old(self), *final(self)),
    {
        let from_balance: Balance = self.free_balance(from);
        if value > from_balance {
            return Err(Error::TransferError);
        }
        if from == to {
            return Ok(());
        }
        let to_balance: Balance = self.free_balance(to);
        match to_balance.checked_add(value) {
            Some(to_next) => {
                self.balances.insert(from, from_balance - value);
                self.balances.insert(to, to_next);
                Ok(())
            },
            None => Err(Error::TransferError),
        }
    }
}

} // verus!
