use vstd::prelude::*;

use crate::assets::map_balance_of;
use crate::assets::spec_transfer;
use crate::assets::spec_transfer_ok;
use crate::state::seq_has_validator;
use crate::state::seq_validator_index;
use crate::state::Module;
use crate::types::AccountId;
use crate::types::Balance;
use crate::types::SlashFraction;
use crate::types::Validator;

verus! {

/// Number of active validators in the sequence.
pub open spec fn seq_active_count(s: Seq<Validator>) -> int
    decreases s.len(),
{
    if s.len() == 0 {
        0
    } else {
        seq_active_count(s.drop_last()) + if s.last().is_active {
            1int
        } else {
            0int
        }
    }
}

/// The expected slash of an offender: its fraction applied to its
/// reward-pot balance, saturated at the balance ceiling.  A fraction above
/// one can expect more than the pot holds.
pub open spec fn spec_expected_slash(
    bal: Map<AccountId, Balance>,
    vals: Seq<Validator>,
    offender: AccountId,
    fraction: SlashFraction,
) -> Balance {
    let pot = vals[seq_validator_index(vals, offender)].reward_pot;
    let e = fraction.spec_of_balance(map_balance_of(bal, pot));
    if e > u64::MAX {
        u64::MAX as Balance
    } else {
        e as Balance
    }
}

/// One offender's slash: moves the expected slash, capped by the pot
/// balance, from the pot to the treasury; when the pot could not cover it
/// and the active set still exceeds the minimum, force-chills the offender.
/// Yields the new ledger, validator set, active count and chill tally.
pub open spec fn spec_slash_step(
    bal: Map<AccountId, Balance>,
    vals: Seq<Validator>,
    treasury: AccountId,
    min_count: u64,
    active: int,
    chilled: int,
    offender: AccountId,
    fraction: SlashFraction,
) -> (Map<AccountId, Balance>, Seq<Validator>, int, int) {
    let idx = seq_validator_index(vals, offender);
    let pot = vals[idx].reward_pot;
    let pb = map_balance_of(bal, pot);
    let expected = spec_expected_slash(bal, vals, offender, fraction);
    let amount = if expected <= pb {
        expected
    } else {
        pb
    };
    let moved = spec_transfer(bal, pot, treasury, amount);
    if expected > pb && active > min_count {
        (moved, vals.update(idx, Validator { is_active: false, ..vals[idx] }), active - 1, chilled
            + 1)
    } else {
        (moved, vals, active, chilled)
    }
}

/// The slash steps of a whole offender list, applied in insertion order.
pub open spec fn spec_slash_fold(
    bal: Map<AccountId, Balance>,
    vals: Seq<Validator>,
    treasury: AccountId,
    min_count: u64,
    active: int,
    chilled: int,
    offenders: Seq<(AccountId, SlashFraction)>,
) -> (Map<AccountId, Balance>, Seq<Validator>, int, int)
    decreases offenders.len(),
{
    if offenders.len() == 0 {
        (bal, vals, active, chilled)
    } else {
        let prev = spec_slash_fold(
            bal,
            vals,
            treasury,
            min_count,
            active,
            chilled,
            offenders.drop_last(),
        );
        spec_slash_step(
            prev.0,
            prev.1,
            treasury,
            min_count,
            prev.2,
            prev.3,
            offenders.last().0,
            offenders.last().1,
        )
    }
}

/// The buffer holds an entry for this offender.
pub open spec fn spec_buf_has_offender(
    buf: Seq<(AccountId, SlashFraction)>,
    who: AccountId,
) -> bool {
    exists|i: int| 0 <= i < buf.len() && (#[trigger] buf[i]).0 == who
}

/// The index of the offender's entry; well defined when keys are unique.
pub open spec fn spec_offender_index(buf: Seq<(AccountId, SlashFraction)>, who: AccountId) -> int {
    choose|i: int| 0 <= i < buf.len() && (#[trigger] buf[i]).0 == who
}

/// Noting one offence: a new offender is appended in order, a repeated
/// offender has its fraction replaced in place.
pub open spec fn spec_note_offender(
    buf: Seq<(AccountId, SlashFraction)>,
    offender: AccountId,
    fraction: SlashFraction,
) -> Seq<(AccountId, SlashFraction)> {
    if spec_buf_has_offender(buf, offender) {
        buf.update(spec_offender_index(buf, offender), (offender, fraction))
    } else {
        buf.push((offender, fraction))
    }
}

/// Noting a whole report, pair by pair.
pub open spec fn spec_note_offences(
    buf: Seq<(AccountId, SlashFraction)>,
    incoming: Seq<(AccountId, SlashFraction)>,
) -> Seq<(AccountId, SlashFraction)>
    decreases incoming.len(),
{
    if incoming.len() == 0 {
        buf
    } else {
        spec_note_offender(
            spec_note_offences(buf, incoming.drop_last()),
            incoming.last().0,
            incoming.last().1,
        )
    }
}

/// Under unique keys, an index holding the offender is the one the
/// specification names.
pub proof fn lemma_offender_index_unique(
    buf: Seq<(AccountId, SlashFraction)>,
    who: AccountId,
    i: int,
)
    requires
        forall|a: int, b: int| 0 <= a < b < buf.len() ==> (#[trigger] buf[a]).0 != (#[trigger] buf[b]).0,
        0 <= i < buf.len(),
        buf[i].0 == who,
    ensures
        spec_buf_has_offender(buf, who),
        spec_offender_index(buf, who) == i,
{
    assert(spec_buf_has_offender(buf, who));
    let j = spec_offender_index(buf, who);
    if i < j {
        assert(buf[i].0 != buf[j].0);
    } else if j < i {
        assert(buf[j].0 != buf[i].0);
    }
}

/// Slashing cap law: one slash step moves exactly the expected slash
/// capped by the pot balance from the pot to the treasury, and
/// force-chills the offender precisely when the amount moved fell short
/// of the expected slash while the active set exceeded the minimum.
pub proof fn lemma_slash_step_cap(
    bal: Map<AccountId, Balance>,
    vals: Seq<Validator>,
    treasury: AccountId,
    min_count: u64,
    active: int,
    chilled: int,
    offender: AccountId,
    fraction: SlashFraction,
)
    requires
        seq_has_validator(vals, offender),
        vals[seq_validator_index(vals, offender)].reward_pot != treasury,
        fraction.spec_of_balance(
            map_balance_of(bal, vals[seq_validator_index(vals, offender)].reward_pot),
        ) <= u64::MAX,
        map_balance_of(bal, treasury) + map_balance_of(
            bal,
            vals[seq_validator_index(vals, offender)].reward_pot,
        ) <= u64::MAX,
    ensures
        ({
            let pot = vals[seq_validator_index(vals, offender)].reward_pot;
            let pb = map_balance_of(bal, pot);
            let expected = fraction.spec_of_balance(pb);
            let amount = if expected <= pb {
                expected as int
            } else {
                pb as int
            };
            let stepped = spec_slash_step(
                bal,
                vals,
                treasury,
                min_count,
                active,
                chilled,
                offender,
                fraction,
            );
            &&& map_balance_of(stepped.0, treasury) == map_balance_of(bal, treasury) + amount
            &&& map_balance_of(stepped.0, pot) == pb - amount
            &&& (stepped.3 == chilled + 1) <==> (expected > pb && active > min_count)
            &&& (stepped.3 == chilled) <==> !(expected > pb && active > min_count)
        }),
{
    let pot = vals[seq_validator_index(vals, offender)].reward_pot;
    let pb = map_balance_of(bal, pot);
    let expected = fraction.spec_of_balance(pb);
    if expected <= pb {
        assert(spec_transfer_ok(bal, pot, treasury, expected as Balance));
    } else {
        assert(spec_transfer_ok(bal, pot, treasury, pb));
    }
}

impl Module {
    /// Counts the validators currently marked active.
    pub fn active_validator_count(&self) -> (r: u64)
        ensures
            r == seq_active_count(self.validators@),
    {
        let n: usize = self.validators.len();
        let mut count: u64 = 0;
        let mut i: usize = 0;
        while i < n
            invariant
                n == self.validators@.len(),
                i <= n,
                count == seq_active_count(self.validators@.take(i as int)),
                count <= i,
            decreases n - i,
        {
            proof {
                assert(self.validators@.take(i + 1 as int).drop_last() =~= self.validators@.take(
                    i as int,
                ));
            }
            if self.validators[i].is_active {
                count = count + 1;
            }
            i = i + 1;
        }
        proof {
            assert(self.validators@.take(n as int) =~= self.validators@);
        }
        count
    }

    /// Reward attributable to one block: the session reward scaled by the
    /// validator count over the session length.
    pub fn reward_per_block(&self, staking_reward: Balance, validator_count: u64) -> (r: u128)
        requires
            self.session_duration >= 1,
        ensures
            r == (staking_reward as int) * (validator_count as int) / (self.session_duration as int),
    {
        let session_length: u128 = self.session_duration as u128;
        let sr: u128 = staking_reward as u128;
        let vc: u128 = validator_count as u128;
        proof {
            assert(sr as int * (vc as int) <= 0xffffffffffffffff * 0xffffffffffffffff)
                by (nonlinear_arith)
                requires
                    sr <= 0xffffffffffffffffu128,
                    vc <= 0xffffffffffffffffu128,
            ;
        }
        sr * vc / session_length
    }

    /// Actually slashes the account being punished; all slashed balance
    /// goes to the treasury.  A movement the ledger rejects moves nothing.
    fn apply_slash(&mut self, reward_pot: AccountId, treasury_account: AccountId, value: Balance)
        ensures
            final(self).balances@ == spec_transfer(
                old(self).balances@,
                reward_pot,
                treasury_account,
                value,
            ),
            Module::same_config(*old(self), *final(self)),
            Module::same_era_state(*old(self), *final(self)),
            Module::same_stake_state(*old(self), *final(self)),
            Module::same_events(*old(self), *final(self)),
            Module::same_offenders(*old(self), *final(self)),
    {
        let _ = self.move_free_balance(reward_pot, treasury_account, value);
    }

    /// The expected slash of the offender under the current ledger.
    pub fn expected_slash_of(&self, offender: AccountId, slash_fraction: SlashFraction) -> (r:
        Balance)
        requires
            self.wf(),
            self.spec_has_validator(offender),
        ensures
            r == spec_expected_slash(self.balances@, self.validators@, offender, slash_fraction),
    {
        let reward_pot: AccountId = self.reward_pot_for(offender);
        let reward_pot_balance: Balance = self.free_balance(reward_pot);
        let e: u128 = slash_fraction.of_balance(reward_pot_balance);
        if e > u64::MAX as u128 {
            u64::MAX
        } else {
            e as u64
        }
    }

    /// Moves the expected slash out of the offender's reward pot, capped
    /// by what the pot holds.  `Ok` when the pot covered it; `Err` with
    /// the pot's (wholly slashed) balance when it could not.
    pub fn try_slash(
        &mut self,
        offender: AccountId,
        treasury_account: AccountId,
        expected_slash: Balance,
    ) -> (r: Result<(), Balance>)
        requires
            old(self).wf(),
            old(self).spec_has_validator(offender),
        ensures
            final(self).wf(),
            ({
                let pot = old(self).spec_reward_pot_of(offender);
                let pb = old(self).spec_balance_of(pot);
                &&& expected_slash <= pb ==> r == Ok::<(), Balance>(()) && final(self).balances@
                    == spec_transfer(old(self).balances@, pot, treasury_account, expected_slash)
                &&& expected_slash > pb ==> r == Err::<(), Balance>(pb) && final(self).balances@
                    == spec_transfer(old(self).balances@, pot, treasury_account, pb)
            }),
            Module::same_config(*old(self), *final(self)),
            Module::same_era_state(*old(self), *final(self)),
            Module::same_stake_state(*old(self), *final(self)),
            Module::same_events(*old(self), *final(self)),
            Module::same_offenders(*old(self), *final(self)),
    {
        let reward_pot: AccountId = self.reward_pot_for(offender);
        let reward_pot_balance: Balance = self.free_balance(reward_pot);

        if expected_slash <= reward_pot_balance {
            self.apply_slash(reward_pot, treasury_account, expected_slash);
            Ok(())
        } else {
            self.apply_slash(reward_pot, treasury_account, reward_pot_balance);
            Err(reward_pot_balance)
        }
    }

    /// Notes one offence in the session buffer: appended for a new
    /// offender, fraction replaced for a repeated one.
    fn note_offender(&mut self, offender: AccountId, fraction: SlashFraction)
        requires
            old(self).wf(),
            old(self).spec_has_validator(offender),
        ensures
            final(self).wf(),
            final(self).offenders_in_session@ == spec_note_offender(
                old(self).offenders_in_session@,
                offender,
                fraction,
            ),
            Module::same_config(*old(self), *final(self)),
            Module::same_era_state(*old(self), *final(self)),
            Module::same_stake_state(*old(self), *final(self)),
            Module::same_events(*old(self), *final(self)),
            Module::same_balances(*old(self), *final(self)),
    {
        let ghost pre = *self;
        let n: usize = self.offenders_in_session.len();
        let mut i: usize = 0;
        while i < n
            invariant
                *self == pre,
                pre == *old(self),
                pre.wf(),
                pre.spec_has_validator(offender),
                n == self.offenders_in_session@.len(),
                i <= n,
                forall|j: int|
                    0 <= j < i ==> (#[trigger] self.offenders_in_session@[j]).0 != offender,
            decreases n - i,
        {
            if self.offenders_in_session[i].0 == offender {
                proof {
                    lemma_offender_index_unique(pre.offenders_in_session@, offender, i as int);
                }
                self.offenders_in_session[i] = (offender, fraction);
                proof {
                    assert forall|a: int, b: int|
                        0 <= a < b < self.offenders_in_session@.len() implies (
                    #[trigger] self.offenders_in_session@[a]).0 != (
                    #[trigger] self.offenders_in_session@[b]).0 by {
                        assert(self.offenders_in_session@[a].0 == pre.offenders_in_session@[a].0);
                        assert(self.offenders_in_session@[b].0 == pre.offenders_in_session@[b].0);
                    }
                    assert forall|k: int| 0 <= k < self.offenders_in_session@.len() implies
                        seq_has_validator(
                        self.validators@,
                        (#[trigger] self.offenders_in_session@[k]).0,
                    ) by {
                        assert(self.offenders_in_session@[k].0
                            == pre.offenders_in_session@[k].0);
                    }
                }
                return ;
            }
            i = i + 1;
        }
        proof {
            assert(!spec_buf_has_offender(pre.offenders_in_session@, offender));
        }
        self.offenders_in_session.push((offender, fraction));
        proof {
            let last = pre.offenders_in_session@.len() as int;
            assert forall|a: int, b: int| 0 <= a < b < self.offenders_in_session@.len() implies (
            #[trigger] self.offenders_in_session@[a]).0 != (
            #[trigger] self.offenders_in_session@[b]).0 by {
                if b < last {
                    assert(self.offenders_in_session@[a].0 == pre.offenders_in_session@[a].0);
                    assert(self.offenders_in_session@[b].0 == pre.offenders_in_session@[b].0);
                } else {
                    assert(self.offenders_in_session@[a].0 == pre.offenders_in_session@[a].0);
                }
            }
            assert forall|k: int| 0 <= k < self.offenders_in_session@.len() implies
                seq_has_validator(
                self.validators@,
                (#[trigger] self.offenders_in_session@[k]).0,
            ) by {
                if k < last {
                    assert(self.offenders_in_session@[k].0 == pre.offenders_in_session@[k].0);
                }
            }
        }
    }

    /// Notes the offenders of a report in the current session's buffer.
    /// Buffering is a side channel with no immediate financial effect; the
    /// slash itself is applied at session end, never deferred further.
    /// Always `Ok`, telling the reporting layer the slash is not deferred.
    pub fn on_offence(&mut self, offenders: &Vec<(AccountId, SlashFraction)>) -> (r: Result<
        u64,
        (),
    >)
        requires
            old(self).wf(),
            forall|i: int|
                0 <= i < offenders@.len() ==> old(self).spec_has_validator(
                    (#[trigger] offenders@[i]).0,
                ),
        ensures
            final(self).wf(),
            final(self).offenders_in_session@ == spec_note_offences(
                old(self).offenders_in_session@,
                offenders@,
            ),
            r == Ok::<u64, ()>(0),
            Module::same_config(*old(self), *final(self)),
            Module::same_era_state(*old(self), *final(self)),
            Module::same_stake_state(*old(self), *final(self)),
            Module::same_events(*old(self), *final(self)),
            Module::same_balances(*old(self), *final(self)),
    {
        let ghost pre = *self;
        let n: usize = offenders.len();
        let mut i: usize = 0;
        while i < n
            invariant
                pre.wf(),
                self.wf(),
                n == offenders@.len(),
                i <= n,
                forall|j: int|
                    0 <= j < n ==> pre.spec_has_validator((#[trigger] offenders@[j]).0),
                self.validators@ == pre.validators@,
                self.offenders_in_session@ == spec_note_offences(
                    pre.offenders_in_session@,
                    offenders@.take(i as int),
                ),
                Module::same_config(pre, *self),
                Module::same_era_state(pre, *self),
                Module::same_stake_state(pre, *self),
                Module::same_events(pre, *self),
                Module::same_balances(pre, *self),
            decreases n - i,
        {
            let (offender, fraction) = offenders[i];
            proof {
                assert(offenders@.take(i + 1 as int).drop_last() =~= offenders@.take(i as int));
                assert(offenders@.take(i + 1 as int).last() == offenders@[i as int]);
            }
            self.note_offender(offender, fraction);
            i = i + 1;
        }
        proof {
            assert(offenders@.take(n as int) =~= offenders@);
        }
        Ok(0)
    }

    /// Whether offence reports are accepted at the moment: always.
    pub fn can_report(&self) -> (r: bool)
        ensures
            r == true,
    {
        true
    }

    /// Slashes the offenders noted in the ending session, in insertion
    /// order: each loses the expected slash out of its reward pot, capped
    /// by the pot balance; an offender whose pot could not cover it is
    /// force-chilled while the active set stays above the configured
    /// minimum.  Drains the buffer exactly once and returns how many
    /// validators were force-chilled.
    pub fn slash_offenders_in_session(&mut self) -> (force_chilled: u64)
        requires
            old(self).wf(),
        ensures
            final(self).wf(),
            ({
                let f = spec_slash_fold(
                    old(self).balances@,
                    old(self).validators@,
                    old(self).treasury_account,
                    old(self).minimum_validator_count,
                    seq_active_count(old(self).validators@),
                    0,
                    old(self).offenders_in_session@,
                );
                &&& final(self).balances@ == f.0
                &&& final(self).validators@ == f.1
                &&& force_chilled == f.3
            }),
            final(self).offenders_in_session@ == Seq::<(AccountId, SlashFraction)>::empty(),
            final(self).nominations@ == old(self).nominations@,
            Module::same_config(*old(self), *final(self)),
            Module::same_era_state(*old(self), *final(self)),
            Module::same_events(*old(self), *final(self)),
    {
        let ghost pre = *self;
        let minimum_validator_count: u64 = self.minimum_validator_count;
        let mut active_count: u64 = self.active_validator_count();
        let treasury_account: AccountId = self.treasury_account;
        let mut force_chilled: u64 = 0;

        let n: usize = self.offenders_in_session.len();
        let mut i: usize = 0;
        while i < n
            invariant
                pre.wf(),
                self.wf(),
                n == pre.offenders_in_session@.len(),
                i <= n,
                treasury_account == pre.treasury_account,
                minimum_validator_count == pre.minimum_validator_count,
                self.offenders_in_session@ == pre.offenders_in_session@,
                force_chilled <= i,
                ({
                    let f = spec_slash_fold(
                        pre.balances@,
                        pre.validators@,
                        pre.treasury_account,
                        pre.minimum_validator_count,
                        seq_active_count(pre.validators@),
                        0,
                        pre.offenders_in_session@.take(i as int),
                    );
                    &&& self.balances@ == f.0
                    &&& self.validators@ == f.1
                    &&& active_count == f.2
                    &&& force_chilled == f.3
                }),
                self.nominations@ == pre.nominations@,
                Module::same_config(pre, *self),
                Module::same_era_state(pre, *self),
                Module::same_events(pre, *self),
            decreases n - i,
        {
            let (offender, slash_fraction) = self.offenders_in_session[i];
            proof {
                assert(pre.offenders_in_session@.take(i + 1 as int).drop_last()
                    =~= pre.offenders_in_session@.take(i as int));
                assert(pre.offenders_in_session@.take(i + 1 as int).last()
                    == pre.offenders_in_session@[i as int]);
                assert(seq_has_validator(self.validators@, offender));
            }
            let ghost mid = *self;
            let expected_slash: Balance = self.expected_slash_of(offender, slash_fraction);
            match self.try_slash(offender, treasury_account, expected_slash) {
                Ok(_) => {
                    proof {
                        assert(self.validators@ == mid.validators@);
                    }
                },
                Err(_actual_slashed) => {
                    if active_count > minimum_validator_count {
                        proof {
                            assert(self.spec_has_validator(offender));
                        }
                        self.apply_force_chilled(offender);
                        active_count = active_count - 1;
                        force_chilled = force_chilled + 1;
                    }
                },
            }
            i = i + 1;
        }
        proof {
            assert(pre.offenders_in_session@.take(n as int) =~= pre.offenders_in_session@);
        }
        self.offenders_in_session.clear();
        force_chilled
    }
}

} // verus!
