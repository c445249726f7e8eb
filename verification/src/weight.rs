use vstd::prelude::*;

use crate::types::Balance;
use crate::types::BlockNumber;
use crate::types::Error;
use crate::types::NominatorLedger;
use crate::types::ValidatorLedger;
use crate::types::WeightFactors;
use crate::types::WeightType;

verus! {

/// Shared capability of the two weight ledgers: the accrual engine reads
/// and writes a record only through this interface, so one settlement
/// implementation serves both the validator and the backer side.
pub trait BaseMiningWeight {
    /// The staked amount the record currently carries.
    spec fn amount_spec(&self) -> Balance;

    /// The vote weight accumulated up to the last update.
    spec fn last_acum_weight_spec(&self) -> WeightType;

    /// The time of the last weight update.
    spec fn last_acum_weight_update_spec(&self) -> BlockNumber;

    fn amount(&self) -> (r: Balance)
        ensures
            r == self.amount_spec(),
    ;

    fn set_amount(&mut self, new: Balance)
        ensures
            final(self).amount_spec() == new,
            final(self).last_acum_weight_spec() == old(self).last_acum_weight_spec(),
            final(self).last_acum_weight_update_spec() == old(self).last_acum_weight_update_spec(),
    ;

    fn last_acum_weight(&self) -> (r: WeightType)
        ensures
            r == self.last_acum_weight_spec(),
    ;

    fn set_last_acum_weight(&mut self, latest_vote_weight: WeightType)
        ensures
            final(self).amount_spec() == old(self).amount_spec(),
            final(self).last_acum_weight_spec() == latest_vote_weight,
            final(self).last_acum_weight_update_spec() == old(self).last_acum_weight_update_spec(),
    ;

    fn last_acum_weight_update(&self) -> (r: BlockNumber)
        ensures
            r == self.last_acum_weight_update_spec(),
    ;

    fn set_last_acum_weight_update(&mut self, current_block: BlockNumber)
        ensures
            final(self).amount_spec() == old(self).amount_spec(),
            final(self).last_acum_weight_spec() == old(self).last_acum_weight_spec(),
            final(self).last_acum_weight_update_spec() == current_block,
    ;
}

impl BaseMiningWeight for ValidatorLedger {
    open spec fn amount_spec(&self) -> Balance {
        self.total
    }

    open spec fn last_acum_weight_spec(&self) -> WeightType {
        self.last_total_vote_weight
    }

    open spec fn last_acum_weight_update_spec(&self) -> BlockNumber {
        self.last_total_vote_weight_update
    }

    fn amount(&self) -> Balance {
        self.total
    }

    fn set_amount(&mut self, new: Balance) {
        self.total = new;
    }

    fn last_acum_weight(&self) -> WeightType {
        self.last_total_vote_weight
    }

    fn set_last_acum_weight(&mut self, latest_vote_weight: WeightType) {
        self.last_total_vote_weight = latest_vote_weight;
    }

    fn last_acum_weight_update(&self) -> BlockNumber {
        self.last_total_vote_weight_update
    }

    fn set_last_acum_weight_update(&mut self, current_block: BlockNumber) {
        self.last_total_vote_weight_update = current_block;
    }
}

impl BaseMiningWeight for NominatorLedger {
    open spec fn amount_spec(&self) -> Balance {
        self.nomination
    }

    open spec fn last_acum_weight_spec(&self) -> WeightType {
        self.last_vote_weight
    }

    open spec fn last_acum_weight_update_spec(&self) -> BlockNumber {
        self.last_vote_weight_update
    }

    fn amount(&self) -> Balance {
        self.nomination
    }

    fn set_amount(&mut self, new: Balance) {
        self.nomination = new;
    }

    fn last_acum_weight(&self) -> WeightType {
        self.last_vote_weight
    }

    fn set_last_acum_weight(&mut self, latest_vote_weight: WeightType) {
        self.last_vote_weight = latest_vote_weight;
    }

    fn last_acum_weight_update(&self) -> BlockNumber {
        self.last_vote_weight_update
    }

    fn set_last_acum_weight_update(&mut self, current_block: BlockNumber) {
        self.last_vote_weight_update = current_block;
    }
}

/// The settled weight as unbounded arithmetic: the time-integral of staked
/// amount, advanced from the last update to `now`.
pub open spec fn spec_settled_weight(
    amount: Balance,
    last_weight: WeightType,
    last_update: BlockNumber,
    now: BlockNumber,
) -> int {
    last_weight + amount * (now - last_update)
}

/// Reads the factors needed to settle a record's weight at `current_block`.
/// A current time earlier than the record's last update is a caller
/// ordering violation, never silently accepted.
pub fn generic_weight_factors<L: BaseMiningWeight>(
    ledger: &L,
    current_block: BlockNumber,
) -> (r: Result<WeightFactors, Error>)
    ensures
        current_block >= ledger.last_acum_weight_update_spec() ==> r == Ok::<WeightFactors, Error>(
            WeightFactors {
                amount: ledger.amount_spec(),
                last_weight: ledger.last_acum_weight_spec(),
                elapsed: (current_block - ledger.last_acum_weight_update_spec()) as BlockNumber,
            },
        ),
        current_block < ledger.last_acum_weight_update_spec() ==> r == Err::<
            WeightFactors,
            Error,
        >(Error::InvalidTimeOrdering),
{
    let last_update = ledger.last_acum_weight_update();
    if current_block < last_update {
        return Err(Error::InvalidTimeOrdering);
    }
    Ok(WeightFactors { amount: ledger.amount(), last_weight: ledger.last_acum_weight(), elapsed: (
    current_block - last_update) })
}

/// Settles a set of weight factors: `last_weight + amount * elapsed`,
/// computed in a widened intermediate.  Overflow is fatal, never clamped:
/// clamping would corrupt reward fairness.
pub fn settle_weight_factors(f: WeightFactors) -> (r: Result<WeightType, Error>)
    ensures
        f.last_weight + f.amount * f.elapsed <= u128::MAX ==> r == Ok::<WeightType, Error>(
            (f.last_weight + f.amount * f.elapsed) as WeightType,
        ),
        f.last_weight + f.amount * f.elapsed > u128::MAX ==> r == Err::<WeightType, Error>(
            Error::ArithmeticOverflow,
        ),
{
    let a: u128 = f.amount as u128;
    let e: u128 = f.elapsed as u128;
    proof {
        assert(a * e <= 0xffffffffffffffffu128 * 0xffffffffffffffffu128) by (nonlinear_arith)
            requires
                a <= 0xffffffffffffffffu128,
                e <= 0xffffffffffffffffu128,
        ;
    }
    let product: u128 = a * e;
    match f.last_weight.checked_add(product) {
        Some(w) => Ok(w),
        None => Err(Error::ArithmeticOverflow),
    }
}

/// Settles a record's weight at `now` in one step.  Zero elapsed time is
/// valid and yields the old weight unchanged; `now < last_update` fails
/// with `InvalidTimeOrdering`; an overflowing widened intermediate fails
/// with `ArithmeticOverflow`.
pub fn settle(
    amount: Balance,
    last_weight: WeightType,
    last_update: BlockNumber,
    now: BlockNumber,
) -> (r: Result<WeightType, Error>)
    ensures
        now < last_update ==> r == Err::<WeightType, Error>(Error::InvalidTimeOrdering),
        now >= last_update && spec_settled_weight(amount, last_weight, last_update, now)
            <= u128::MAX ==> r == Ok::<WeightType, Error>(
            spec_settled_weight(amount, last_weight, last_update, now) as WeightType,
        ),
        now >= last_update && spec_settled_weight(amount, last_weight, last_update, now)
            > u128::MAX ==> r == Err::<WeightType, Error>(Error::ArithmeticOverflow),
{
    if now < last_update {
        return Err(Error::InvalidTimeOrdering);
    }
    settle_weight_factors(WeightFactors { amount, last_weight, elapsed: (now - last_update) })
}

} // verus!
