use vstd::prelude::*;

use crate::assets::spec_transfer;
use crate::assets::spec_transfer_ok;
use crate::state::Module;
use crate::types::AccountId;
use crate::types::Balance;
use crate::types::BlockNumber;
use crate::types::Delta;
use crate::types::Error;
use crate::types::Event;
use crate::types::NominatorLedger;
use crate::types::Validator;
use crate::types::ValidatorLedger;
use crate::types::WeightFactors;
use crate::types::WeightType;
use crate::weight::generic_weight_factors;
use crate::weight::settle_weight_factors;

verus! {

impl Module {
    /// What settling the backer's and the validator's weight at `now`
    /// yields: the pair of settled weights, or the first settlement
    /// failure, backer side first.
    pub open spec fn spec_settle_weights(
        self,
        who: AccountId,
        target: AccountId,
        now: BlockNumber,
    ) -> Result<(WeightType, WeightType), Error> {
        let s = self.spec_nomination_ledger_of(who, target);
        let t = self.spec_validator_of(target).ledger;
        if now < s.last_vote_weight_update {
            Err(Error::InvalidTimeOrdering)
        } else if s.last_vote_weight + s.nomination * (now - s.last_vote_weight_update)
            > u128::MAX {
            Err(Error::ArithmeticOverflow)
        } else if now < t.last_total_vote_weight_update {
            Err(Error::InvalidTimeOrdering)
        } else if t.last_total_vote_weight + t.total * (now - t.last_total_vote_weight_update)
            > u128::MAX {
            Err(Error::ArithmeticOverflow)
        } else {
            Ok(
                (
                    (s.last_vote_weight + s.nomination * (now - s.last_vote_weight_update)) as WeightType,
                    (t.last_total_vote_weight + t.total * (now
                        - t.last_total_vote_weight_update)) as WeightType,
                ),
            )
        }
    }

    /// Weight factors of the claiming backer against its validator.
    pub fn claimer_weight_factors(
        &self,
        who: AccountId,
        target: AccountId,
        current_block: BlockNumber,
    ) -> (r: Result<WeightFactors, Error>)
        requires
            self.wf(),
        ensures
            ({
                let l = self.spec_nomination_ledger_of(who, target);
                &&& current_block >= l.last_vote_weight_update ==> r == Ok::<WeightFactors, Error>(
                    WeightFactors {
                        amount: l.nomination,
                        last_weight: l.last_vote_weight,
                        elapsed: (current_block - l.last_vote_weight_update) as BlockNumber,
                    },
                )
                &&& current_block < l.last_vote_weight_update ==> r == Err::<WeightFactors, Error>(
                    Error::InvalidTimeOrdering,
                )
            }),
    {
        let claimer_ledger: NominatorLedger = match self.find_nomination(who, target) {
            Some(i) => {
                proof {
                    self.lemma_nomination_index_unique(who, target, i as int);
                }
                self.nominations[i].ledger
            },
            None => NominatorLedger { nomination: 0, last_vote_weight: 0, last_vote_weight_update: 0 },
        };
        generic_weight_factors(&claimer_ledger, current_block)
    }

    /// Weight factors of the claimed validator.
    pub fn claimee_weight_factors(&self, target: AccountId, current_block: BlockNumber) -> (r:
        Result<WeightFactors, Error>)
        requires
            self.wf(),
            self.spec_has_validator(target),
        ensures
            ({
                let l = self.spec_validator_of(target).ledger;
                &&& current_block >= l.last_total_vote_weight_update ==> r == Ok::<
                    WeightFactors,
                    Error,
                >(
                    WeightFactors {
                        amount: l.total,
                        last_weight: l.last_total_vote_weight,
                        elapsed: (current_block - l.last_total_vote_weight_update) as BlockNumber,
                    },
                )
                &&& current_block < l.last_total_vote_weight_update ==> r == Err::<
                    WeightFactors,
                    Error,
                >(Error::InvalidTimeOrdering)
            }),
    {
        let claimee_ledger: ValidatorLedger = match self.find_validator(target) {
            Some(i) => {
                proof {
                    self.lemma_validator_index_unique(target, i as int);
                }
                self.validators[i].ledger
            },
            None => {
                proof {
                    assert(false);
                }
                ValidatorLedger {
                    total: 0,
                    last_total_vote_weight: 0,
                    last_total_vote_weight_update: 0,
                }
            },
        };
        generic_weight_factors(&claimee_ledger, current_block)
    }

    /// Settles the backer's weight against the validator and the
    /// validator's total weight, both at the same current time.
    pub fn settle_weight_on_claim(
        &self,
        who: AccountId,
        target: AccountId,
        current_block: BlockNumber,
    ) -> (r: Result<(WeightType, WeightType), Error>)
        requires
            self.wf(),
            self.spec_has_validator(target),
        ensures
            r == self.spec_settle_weights(who, target, current_block),
    {
        let source_factors: WeightFactors = match self.claimer_weight_factors(
            who,
            target,
            current_block,
        ) {
            Ok(f) => f,
            Err(e) => {
                return Err(e);
            },
        };
        let source_weight: WeightType = match settle_weight_factors(source_factors) {
            Ok(w) => w,
            Err(e) => {
                return Err(e);
            },
        };
        let target_factors: WeightFactors = match self.claimee_weight_factors(
            target,
            current_block,
        ) {
            Ok(f) => f,
            Err(e) => {
                return Err(e);
            },
        };
        let target_weight: WeightType = match settle_weight_factors(target_factors) {
            Ok(w) => w,
            Err(e) => {
                return Err(e);
            },
        };
        Ok((source_weight, target_weight))
    }

    /// Computes the dividend according to the ratio of the source vote
    /// weight to the target vote weight:
    /// `floor(source * balance_of(claimee_reward_pot) / target)`.  A
    /// widened product beyond range fails with `ArithmeticOverflow`.
    pub fn compute_dividend(
        &self,
        source_vote_weight: WeightType,
        target_vote_weight: WeightType,
        claimee_reward_pot: AccountId,
    ) -> (r: Result<Balance, Error>)
        requires
            1 <= target_vote_weight,
            source_vote_weight <= target_vote_weight,
        ensures
            ({
                let pb = self.spec_balance_of(claimee_reward_pot);
                &&& (source_vote_weight as int) * (pb as int) <= u128::MAX ==> r == Ok::<
                    Balance,
                    Error,
                >(
                    ((source_vote_weight as int) * (pb as int) / (
                    target_vote_weight as int)) as Balance,
                )
                &&& (source_vote_weight as int) * (pb as int) > u128::MAX ==> r == Err::<
                    Balance,
                    Error,
                >(Error::ArithmeticOverflow)
            }),
    {
        let total_reward_pot: Balance = self.free_balance(claimee_reward_pot);
        match source_vote_weight.checked_mul(total_reward_pot as u128) {
            Some(x) => {
                let q: u128 = x / target_vote_weight;
                proof {
                    assert((source_vote_weight as int) * (total_reward_pot as int) / (
                    target_vote_weight as int) <= total_reward_pot as int) by (nonlinear_arith)
                        requires
                            0 <= source_vote_weight as int <= target_vote_weight as int,
                            1 <= target_vote_weight as int,
                            0 <= total_reward_pot as int,
                    ;
                }
                Ok(q as u64)
            },
            None => Err(Error::ArithmeticOverflow),
        }
    }

    /// Moves a computed dividend from the reward pot to the claimer,
    /// through the ledger collaborator.
    fn allocate_dividend(
        &mut self,
        claimer: AccountId,
        pot_account: AccountId,
        dividend: Balance,
    ) -> (r: Result<(), Error>)
        ensures
            final(self).balances@ == spec_transfer(
                old(self).balances@,
                pot_account,
                claimer,
                dividend,
            ),
            r == if spec_transfer_ok(old(self).balances@, pot_account, claimer, dividend) {
                Ok::<(), Error>(())
            } else {
                Err::<(), Error>(Error::TransferError)
            },
            Module::same_config(*old(self), *final(self)),
            Module::same_era_state(*old(self), *final(self)),
            Module::same_stake_state(*old(self), *final(self)),
            Module::same_events(*old(self), *final(self)),
            Module::same_offenders(*old(self), *final(self)),
    {
        self.move_free_balance(pot_account, claimer, dividend)
    }

    /// After a claim the backer's consumed weight is reset to zero at the
    /// current time; the nomination amount is untouched.
    pub fn update_claimer_vote_weight_on_claim(
        &mut self,
        claimer: AccountId,
        target: AccountId,
        current_block: BlockNumber,
    )
        requires
            old(self).wf(),
        ensures
            final(self).wf(),
            final(self).spec_nomination_ledger_of(claimer, target) == (NominatorLedger {
                nomination: old(self).spec_nomination_ledger_of(claimer, target).nomination,
                last_vote_weight: 0,
                last_vote_weight_update: current_block,
            }),
            forall|n2: AccountId, v2: AccountId|
                !(n2 == claimer && v2 == target)
                    ==> #[trigger] final(self).spec_nomination_ledger_of(n2, v2)
                    == old(self).spec_nomination_ledger_of(n2, v2),
            final(self).validators@ == old(self).validators@,
            Module::same_config(*old(self), *final(self)),
            Module::same_era_state(*old(self), *final(self)),
            Module::same_balances(*old(self), *final(self)),
            Module::same_events(*old(self), *final(self)),
            Module::same_offenders(*old(self), *final(self)),
    {
        self.set_nominator_vote_weight(claimer, target, 0, current_block, Delta::Zero);
    }

    /// After a claim the validator keeps its stake; its accumulated weight
    /// is replaced by the remainder at the current time.
    pub fn update_claimee_vote_weight_on_claim(
        &mut self,
        claimee: AccountId,
        new_vote_weight: WeightType,
        current_block: BlockNumber,
    )
        requires
            old(self).wf(),
            old(self).spec_has_validator(claimee),
        ensures
            final(self).wf(),
            final(self).spec_validator_of(claimee) == (Validator {
                ledger: ValidatorLedger {
                    total: old(self).spec_validator_of(claimee).ledger.total,
                    last_total_vote_weight: new_vote_weight,
                    last_total_vote_weight_update: current_block,
                },
                ..old(self).spec_validator_of(claimee)
            }),
            forall|w: AccountId|
                w != claimee ==> #[trigger] final(self).spec_validator_of(w)
                    == old(self).spec_validator_of(w),
            forall|w: AccountId|
                #[trigger] final(self).spec_has_validator(w) == old(self).spec_has_validator(w),
            Module::same_config(*old(self), *final(self)),
            Module::same_era_state(*old(self), *final(self)),
            Module::same_balances(*old(self), *final(self)),
            Module::same_events(*old(self), *final(self)),
            Module::same_offenders(*old(self), *final(self)),
            final(self).nominations@ == old(self).nominations@,
    {
        self.set_validator_vote_weight(claimee, new_vote_weight, current_block, Delta::Zero);
    }

    /// A backer withdraws its share of the validator's reward pot, in
    /// proportion of its settled weight to the validator's.  On success
    /// the backer's weight is consumed to zero, the validator's weight is
    /// reduced by exactly the claimed source weight, and the dividend
    /// moves from the pot to the backer; any failure aborts the claim with
    /// nothing applied.
    pub fn claim(&mut self, claimer: AccountId, claimee: AccountId, current_block: BlockNumber) -> (r:
        Result<(), Error>)
        requires
            old(self).wf(),
            old(self).spec_has_validator(claimee),
            claimer != old(self).spec_reward_pot_of(claimee),
            old(self).spec_settle_weights(claimer, claimee, current_block) matches Ok(w) ==> 1
                <= w.1 && w.0 <= w.1,
        ensures
            final(self).wf(),
            Module::same_config(*old(self), *final(self)),
            Module::same_era_state(*old(self), *final(self)),
            Module::same_offenders(*old(self), *final(self)),
            old(self).spec_settle_weights(claimer, claimee, current_block) matches Err(e) ==> r
                == Err::<(), Error>(e),
            r is Err ==> Module::same_balances(*old(self), *final(self)) && Module::same_events(
                *old(self),
                *final(self),
            ) && Module::same_stake_state(*old(self), *final(self)),
            old(self).spec_settle_weights(claimer, claimee, current_block) matches Ok(w) ==> ({
                let src = w.0;
                let tgt = w.1;
                let pot = old(self).spec_reward_pot_of(claimee);
                let pb = old(self).spec_balance_of(pot);
                &&& (src as int) * (pb as int) > u128::MAX ==> r == Err::<(), Error>(
                    Error::ArithmeticOverflow,
                )
                &&& (src as int) * (pb as int) <= u128::MAX ==> ({
                    let dividend = ((src as int) * (pb as int) / (tgt as int)) as Balance;
                    &&& !spec_transfer_ok(old(self).balances@, pot, claimer, dividend) ==> r
                        == Err::<(), Error>(Error::InsufficientPotBalance)
                    &&& spec_transfer_ok(old(self).balances@, pot, claimer, dividend) ==> {
                        &&& r == Ok::<(), Error>(())
                        &&& final(self).balances@ == spec_transfer(
                            old(self).balances@,
                            pot,
                            claimer,
                            dividend,
                        )
                        &&& final(self).events@ == old(self).events@.push(
                            Event::Claim(claimer, claimee, dividend),
                        )
                        &&& final(self).spec_nomination_ledger_of(claimer, claimee)
                            == (NominatorLedger {
                            nomination: old(self).spec_nomination_ledger_of(
                                claimer,
                                claimee,
                            ).nomination,
                            last_vote_weight: 0,
                            last_vote_weight_update: current_block,
                        })
                        &&& final(self).spec_validator_of(claimee) == (Validator {
                            ledger: ValidatorLedger {
                                total: old(self).spec_validator_of(claimee).ledger.total,
                                last_total_vote_weight: (tgt - src) as WeightType,
                                last_total_vote_weight_update: current_block,
                            },
                            ..old(self).spec_validator_of(claimee)
                        })
                        &&& forall|n2: AccountId, v2: AccountId|
                            !(n2 == claimer && v2 == claimee)
                                ==> #[trigger] final(self).spec_nomination_ledger_of(n2, v2)
                                == old(self).spec_nomination_ledger_of(n2, v2)
                        &&& forall|w2: AccountId|
                            w2 != claimee ==> #[trigger] final(self).spec_validator_of(w2)
                                == old(self).spec_validator_of(w2)
                    }
                })
            }),
    {
        let weights = match self.settle_weight_on_claim(claimer, claimee, current_block) {
            Ok(p) => p,
            Err(e) => {
                return Err(e);
            },
        };
        let source_weight: WeightType = weights.0;
        let target_weight: WeightType = weights.1;

        let claimee_pot: AccountId = self.reward_pot_for(claimee);

        let dividend: Balance = match self.compute_dividend(
            source_weight,
            target_weight,
            claimee_pot,
        ) {
            Ok(d) => d,
            Err(e) => {
                return Err(e);
            },
        };

        match self.allocate_dividend(claimer, claimee_pot, dividend) {
            Ok(_) => (),
            Err(_) => {
                return Err(Error::InsufficientPotBalance);
            },
        }

        self.events.push(Event::Claim(claimer, claimee, dividend));

        let ghost mid = *self;
        proof {
            Module::lemma_nomination_views_equal(*old(self), mid);
        }

        let new_target_weight: WeightType = target_weight - source_weight;

        self.update_claimer_vote_weight_on_claim(claimer, claimee, current_block);

        let ghost mid2 = *self;

        self.update_claimee_vote_weight_on_claim(claimee, new_target_weight, current_block);

        proof {
            Module::lemma_nomination_views_equal(mid2, *self);
        }

        Ok(())
    }
}

} // verus!
