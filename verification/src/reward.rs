use vstd::prelude::*;

use vstd::arithmetic::div_mod::lemma_div_is_ordered;
use vstd::arithmetic::div_mod::lemma_div_multiples_vanish;
use vstd::arithmetic::mul::lemma_mul_inequality;
use vstd::arithmetic::div_mod::lemma_basic_div;
use vstd::arithmetic::power2::lemma2_to64;
use vstd::arithmetic::power2::lemma2_to64_rest;
use vstd::arithmetic::power2::lemma_pow2_pos;
use vstd::arithmetic::power2::lemma_pow2_strictly_increases;
use vstd::arithmetic::power2::lemma_pow2_unfold;
use vstd::arithmetic::power2::pow2;

use crate::assets::map_balance_of;
use crate::assets::spec_issue;
use crate::assets::spec_transfer;
use crate::state::seq_validator_index;
use crate::state::Module;
use crate::types::AccountId;
use crate::types::Balance;
use crate::types::Error;
use crate::types::SessionIndex;
use crate::types::Validator;
use crate::types::SESSIONS_PER_ROUND;

verus! {

/// Floor share of `total_reward` owed to a weight of `mine` out of a total
/// weight of `total`, as unbounded arithmetic.
pub open spec fn spec_proportion(total_reward: Balance, mine: u128, total: u128) -> int {
    (mine as int) * (total_reward as int) / (total as int)
}

/// The proportional share is representable: the widened product fits and
/// the share is strictly below the balance range's ceiling.
pub open spec fn spec_proportion_ok(total_reward: Balance, mine: u128, total: u128) -> bool {
    &&& (mine as int) * (total_reward as int) <= u128::MAX
    &&& spec_proportion(total_reward, mine, total) < u64::MAX
}

/// Reward of the session with the given index: the initial reward, halved
/// once per elapsed round.
pub open spec fn spec_session_reward(initial: Balance, current_index: SessionIndex) -> Balance {
    ((initial as nat) / pow2((current_index / SESSIONS_PER_ROUND) as nat)) as Balance
}

/// `value * num / den`, with `num` first reduced to `den` if it exceeds it.
pub open spec fn spec_multiply_by_rational(value: u64, num: u32, den: u32) -> int {
    (value as int) * (if num <= den {
        num as int
    } else {
        den as int
    }) / (den as int)
}

/// The balance ledger after crediting a validator: one tenth of the reward
/// goes to its own balance off the table, the rest to its reward pot.
pub open spec fn spec_reward_balances(
    m: Map<AccountId, Balance>,
    who: AccountId,
    pot: AccountId,
    value: Balance,
) -> Map<AccountId, Balance> {
    spec_issue(spec_issue(m, who, (value / 10) as Balance), pot, (value - value / 10) as Balance)
}

/// The active validators of a validator sequence, in order, each paired
/// with its total nomination.
pub open spec fn spec_active_intentions(s: Seq<Validator>) -> Seq<(AccountId, Balance)>
    decreases s.len(),
{
    if s.len() == 0 {
        Seq::empty()
    } else {
        let init = spec_active_intentions(s.drop_last());
        if s.last().is_active {
            init.push((s.last().who, s.last().ledger.total))
        } else {
            init
        }
    }
}

/// Sum of the staked totals of a list of (validator, stake) pairs.
pub open spec fn spec_total_stake(s: Seq<(AccountId, Balance)>) -> int
    decreases s.len(),
{
    if s.len() == 0 {
        0
    } else {
        spec_total_stake(s.drop_last()) + s.last().1
    }
}

/// A sum of stakes is never negative.
pub proof fn lemma_total_stake_nonneg(s: Seq<(AccountId, Balance)>)
    ensures
        spec_total_stake(s) >= 0,
    decreases s.len(),
{
    if s.len() > 0 {
        lemma_total_stake_nonneg(s.drop_last());
    }
}

impl Module {
    /// Gets the reward of the session with the given index, assuming it
    /// ends with this block: geometric halving every round of sessions.
    pub fn this_session_reward(&self, current_index: SessionIndex) -> (r: Balance)
        ensures
            r == spec_session_reward(self.initial_reward, current_index),
    {
        let exponent: u32 = current_index / SESSIONS_PER_ROUND;
        if exponent >= 64 {
            proof {
                lemma2_to64();
                lemma2_to64_rest();
                if exponent > 64 {
                    lemma_pow2_strictly_increases(64, exponent as nat);
                }
                assert((self.initial_reward as nat) < pow2(exponent as nat));
                lemma_basic_div(self.initial_reward as int, pow2(exponent as nat) as int);
            }
            return 0;
        }
        let mut d: u64 = 1;
        let mut i: u32 = 0;
        proof {
            lemma2_to64();
        }
        while i < exponent
            invariant
                i <= exponent < 64,
                d == pow2(i as nat),
            decreases exponent - i,
        {
            proof {
                lemma2_to64();
                lemma2_to64_rest();
                lemma_pow2_unfold((i + 1) as nat);
                lemma_pow2_strictly_increases((i + 1) as nat, 64);
            }
            d = d * 2;
            i = i + 1;
        }
        proof {
            lemma_pow2_pos(exponent as nat);
        }
        self.initial_reward / d
    }

    /// Floor share of `total_reward` proportional to `mine` out of `total`.
    /// A widened product that overflows, or a share that reaches the
    /// balance ceiling, fails with `ArithmeticOverflow` instead of
    /// wrapping.
    pub fn generic_calculate_by_proportion(total_reward: Balance, mine: u128, total: u128) -> (r:
        Result<Balance, Error>)
        requires
            total >= 1,
        ensures
            spec_proportion_ok(total_reward, mine, total) ==> r == Ok::<Balance, Error>(
                spec_proportion(total_reward, mine, total) as Balance,
            ),
            !spec_proportion_ok(total_reward, mine, total) ==> r == Err::<Balance, Error>(
                Error::ArithmeticOverflow,
            ),
    {
        match mine.checked_mul(total_reward as u128) {
            Some(x) => {
                let q: u128 = x / total;
                if q < u64::MAX as u128 {
                    Ok(q as u64)
                } else {
                    Err(Error::ArithmeticOverflow)
                }
            },
            None => Err(Error::ArithmeticOverflow),
        }
    }

    /// Calculates the individual reward according to the stake proportion.
    pub fn calculate_reward_by_stake(
        total_reward: Balance,
        my_stake: Balance,
        total_stake: Balance,
    ) -> (r: Result<Balance, Error>)
        requires
            total_stake >= 1,
        ensures
            spec_proportion_ok(total_reward, my_stake as u128, total_stake as u128) ==> r == Ok::<
                Balance,
                Error,
            >(spec_proportion(total_reward, my_stake as u128, total_stake as u128) as Balance),
            !spec_proportion_ok(total_reward, my_stake as u128, total_stake as u128) ==> r == Err::<
                Balance,
                Error,
            >(Error::ArithmeticOverflow),
    {
        Module::generic_calculate_by_proportion(total_reward, my_stake as u128, total_stake as u128)
    }

    /// Calculates the individual reward according to the mining power of
    /// cross-chain assets.
    pub fn multiply_by_mining_power(
        total_reward: Balance,
        my_power: u128,
        total_mining_power: u128,
    ) -> (r: Result<Balance, Error>)
        requires
            total_mining_power >= 1,
        ensures
            spec_proportion_ok(total_reward, my_power, total_mining_power) ==> r == Ok::<
                Balance,
                Error,
            >(spec_proportion(total_reward, my_power, total_mining_power) as Balance),
            !spec_proportion_ok(total_reward, my_power, total_mining_power) ==> r == Err::<
                Balance,
                Error,
            >(Error::ArithmeticOverflow),
    {
        Module::generic_calculate_by_proportion(total_reward, my_power, total_mining_power)
    }

    /// `value * num / den` without overflowing on any values: `num` is
    /// reduced to `den` if it exceeds it, and the quotient and remainder
    /// parts are taken separately.
    pub fn multiply_by_rational(value: u64, num: u32, den: u32) -> (r: u64)
        requires
            den >= 1,
        ensures
            r == spec_multiply_by_rational(value, num, den),
    {
        let num: u32 = if num < den {
            num
        } else {
            den
        };
        let d: u64 = den as u64;
        let n: u64 = num as u64;

        proof {
            lemma_mbr_parts(value as int, n as int, d as int);
        }
        let result_divisor_part: u64 = value / d * n;

        let rem: u64 = value % d;
        let rem_u32: u32 = rem as u32;
        proof {
            assert((rem_u32 as int) * (n as int) <= 0xffffffff * 0xffffffff) by (nonlinear_arith)
                requires
                    rem_u32 <= 0xffffffffu32,
                    n <= 0xffffffffu64,
            ;
        }
        let rem_part: u64 = (rem_u32 as u64) * n / d;

        result_divisor_part + rem_part
    }

    /// Issues freshly minted balance to a receiver, ignoring a rejection
    /// by the ledger collaborator: a mint that would overflow the account
    /// credits nothing.
    fn mint(&mut self, receiver: AccountId, value: Balance)
        ensures
            final(self).balances@ == spec_issue(old(self).balances@, receiver, value),
            Module::same_config(*old(self), *final(self)),
            Module::same_era_state(*old(self), *final(self)),
            Module::same_stake_state(*old(self), *final(self)),
            Module::same_events(*old(self), *final(self)),
            Module::same_offenders(*old(self), *final(self)),
    {
        let _ = self.issue(receiver, value);
    }

    /// Mints a reward split for an active validator: one tenth off the
    /// table into its own balance, the rest into its reward pot.  An
    /// overflowing mint is rejected by the collaborator and credits
    /// nothing, as `spec_issue` records.
    pub fn reward(&mut self, who: AccountId, reward_value: Balance)
        requires
            old(self).wf(),
            old(self).spec_has_validator(who),
        ensures
            final(self).wf(),
            final(self).balances@ == spec_reward_balances(
                old(self).balances@,
                who,
                old(self).spec_reward_pot_of(who),
                reward_value,
            ),
            forall|a: AccountId|
                a != who && a != old(self).spec_reward_pot_of(who)
                    ==> #[trigger] final(self).spec_balance_of(a)
                    == old(self).spec_balance_of(a),
            Module::same_config(*old(self), *final(self)),
            Module::same_era_state(*old(self), *final(self)),
            Module::same_stake_state(*old(self), *final(self)),
            Module::same_events(*old(self), *final(self)),
            Module::same_offenders(*old(self), *final(self)),
    {
        let off_the_table: Balance = reward_value / 10;
        let pot: AccountId = self.reward_pot_for(who);
        self.mint(who, off_the_table);
        let to_jackpot: Balance = reward_value - off_the_table;
        self.mint(pot, to_jackpot);
    }

    /// The reward-pot account of a registered validator.
    pub fn reward_pot_for(&self, who: AccountId) -> (r: AccountId)
        requires
            self.wf(),
            self.spec_has_validator(who),
        ensures
            r == self.spec_reward_pot_of(who),
    {
        match self.find_validator(who) {
            Some(i) => {
                proof {
                    self.lemma_validator_index_unique(who, i as int);
                }
                self.validators[i].reward_pot
            },
            None => {
                proof {
                    assert(false);
                }
                0
            },
        }
    }

    /// In the first round, one fifth of each session's reward goes to the
    /// team; later rounds keep the whole reward for distribution.  Returns
    /// the distributable remainder.
    pub fn try_fund_team(&mut self, this_session_reward: Balance, current_index: SessionIndex) -> (r:
        Balance)
        ensures
            current_index < SESSIONS_PER_ROUND ==> {
                &&& final(self).balances@ == spec_issue(
                    old(self).balances@,
                    old(self).team_account,
                    (this_session_reward / 5) as Balance,
                )
                &&& r == this_session_reward - this_session_reward / 5
            },
            current_index >= SESSIONS_PER_ROUND ==> {
                &&& final(self).balances@ == old(self).balances@
                &&& r == this_session_reward
            },
            Module::same_config(*old(self), *final(self)),
            Module::same_era_state(*old(self), *final(self)),
            Module::same_stake_state(*old(self), *final(self)),
            Module::same_events(*old(self), *final(self)),
            Module::same_offenders(*old(self), *final(self)),
    {
        if current_index < SESSIONS_PER_ROUND {
            let to_team: Balance = this_session_reward / 5;
            let team: AccountId = self.team_account;
            self.mint(team, to_team);
            this_session_reward - to_team
        } else {
            this_session_reward
        }
    }

    /// Collects the active validators and their total nominations, in
    /// registration order.  Only these are rewarded on a new session; the
    /// inactive ones earn nothing.
    pub fn get_active_intentions_info(&self) -> (r: Vec<(AccountId, Balance)>)
        ensures
            r@ == spec_active_intentions(self.validators@),
    {
        let n: usize = self.validators.len();
        let mut r: Vec<(AccountId, Balance)> = Vec::new();
        let mut i: usize = 0;
        while i < n
            invariant
                n == self.validators@.len(),
                i <= n,
                r@ == spec_active_intentions(self.validators@.take(i as int)),
            decreases n - i,
        {
            let v: Validator = self.validators[i];
            proof {
                assert(self.validators@.take(i + 1 as int).drop_last() =~= self.validators@.take(
                    i as int,
                ));
                assert(self.validators@.take(i + 1 as int).last() == self.validators@[i as int]);
            }
            if v.is_active {
                r.push((v.who, v.ledger.total));
            }
            i = i + 1;
        }
        proof {
            assert(self.validators@.take(n as int) =~= self.validators@);
        }
        r
    }
}

/// The first position holding `x`, removed from the sequence; a sequence
/// without `x` is unchanged.
pub open spec fn seq_remove_first(s: Seq<AccountId>, x: AccountId) -> Seq<AccountId> {
    if s.contains(x) {
        s.remove(seq_first_index_of(s, x))
    } else {
        s
    }
}

/// The first position of `x` in the sequence.
pub open spec fn seq_first_index_of(s: Seq<AccountId>, x: AccountId) -> int {
    choose|k: int|
        0 <= k < s.len() && s[k] == x && forall|j: int| 0 <= j < k ==> s[j] != x
}

/// A position holding `x` behind an `x`-free prefix is the first one.
pub proof fn lemma_first_index_unique(s: Seq<AccountId>, x: AccountId, k: int)
    requires
        0 <= k < s.len(),
        s[k] == x,
        forall|j: int| 0 <= j < k ==> s[j] != x,
    ensures
        s.contains(x),
        seq_first_index_of(s, x) == k,
{
    assert(s.contains(x));
    let k2 = seq_first_index_of(s, x);
    if k < k2 {
        assert(s[k] != x);
    } else if k2 < k {
        assert(s[k2] != x);
    }
}

/// An entry of the active-intentions list names a registered, active
/// validator together with its recorded total nomination.
pub proof fn lemma_active_intentions_entry(s: Seq<Validator>, k: int)
    requires
        0 <= k < spec_active_intentions(s).len(),
    ensures
        exists|i: int|
            0 <= i < s.len() && (#[trigger] s[i]).who == spec_active_intentions(s)[k].0
                && s[i].ledger.total == spec_active_intentions(s)[k].1 && s[i].is_active,
    decreases s.len(),
{
    let prev = spec_active_intentions(s.drop_last());
    if k < prev.len() {
        lemma_active_intentions_entry(s.drop_last(), k);
        assert(spec_active_intentions(s)[k] == prev[k]);
        let i = choose|i: int|
            0 <= i < s.drop_last().len() && (#[trigger] s.drop_last()[i]).who == prev[k].0
                && s.drop_last()[i].ledger.total == prev[k].1 && s.drop_last()[i].is_active;
        assert(s[i] == s.drop_last()[i]);
        assert(s[i].who == spec_active_intentions(s)[k].0 && s[i].ledger.total
            == spec_active_intentions(s)[k].1 && s[i].is_active);
    } else {
        let i = s.len() - 1;
        assert(s[i] == s.last());
        assert(s.last().is_active);
        assert(spec_active_intentions(s)[k] == (s.last().who, s.last().ledger.total));
        assert(s[i].who == spec_active_intentions(s)[k].0 && s[i].ledger.total
            == spec_active_intentions(s)[k].1 && s[i].is_active);
    }
}

impl Module {
    /// Slashes a validator that was reported offline, right after its
    /// reward credit: the pending missed count times the per-block value
    /// of the just-credited reward is expected out of its reward pot,
    /// capped by what the pot holds; a pot that could not cover it has the
    /// validator force-chilled and removed from the session list.  The
    /// missed count is consumed either way.
    fn slash_active_offline_validator(
        &mut self,
        who: AccountId,
        my_reward: Balance,
        validators: &mut Vec<AccountId>,
    )
        requires
            old(self).wf(),
            old(self).spec_has_validator(who),
            old(self).spec_validator_of(who).missed_count > 0,
        ensures
            final(self).wf(),
            ({
                let pot = old(self).spec_reward_pot_of(who);
                let pb = old(self).spec_balance_of(pot);
                let missed = old(self).spec_validator_of(who).missed_count;
                let expected128 = (missed as int) * ((my_reward as int) / (
                old(self).session_duration as int));
                let expected = (if expected128 > u64::MAX {
                    u64::MAX as int
                } else {
                    expected128
                }) as Balance;
                let amount = if expected <= pb {
                    expected
                } else {
                    pb
                };
                let idx = old(self).spec_validator_index(who);
                &&& final(self).balances@ == spec_transfer(
                    old(self).balances@,
                    pot,
                    old(self).treasury_account,
                    amount,
                )
                &&& expected <= pb ==> final(self).validators@ == old(self).validators@.update(
                    idx,
                    Validator { missed_count: 0, ..old(self).spec_validator_of(who) },
                ) && final(validators)@ == old(validators)@
                &&& expected > pb ==> final(self).validators@ == old(self).validators@.update(
                    idx,
                    Validator {
                        missed_count: 0,
                        is_active: false,
                        ..old(self).spec_validator_of(who)
                    },
                ) && final(validators)@ == seq_remove_first(old(validators)@, who)
            }),
            forall|w: AccountId|
                #[trigger] final(self).spec_has_validator(w) == old(self).spec_has_validator(w),
            Module::same_config(*old(self), *final(self)),
            Module::same_era_state(*old(self), *final(self)),
            Module::same_events(*old(self), *final(self)),
            Module::same_offenders(*old(self), *final(self)),
            final(self).nominations@ == old(self).nominations@,
    {
        let record_index: usize = match self.find_validator(who) {
            Some(i) => i,
            None => {
                proof {
                    assert(false);
                }
                0
            },
        };
        proof {
            self.lemma_validator_index_unique(who, record_index as int);
        }
        let record: Validator = self.validators[record_index];
        let missed: u32 = record.missed_count;

        let per_block: u128 = self.reward_per_block(my_reward, 1);
        proof {
            assert(per_block <= 0xffffffffffffffffu128 && (missed as int) * (per_block as int)
                <= 0xffffffff * 0xffffffffffffffff) by (nonlinear_arith)
                requires
                    missed <= 0xffffffffu32,
                    per_block == (my_reward as int) * 1 / (self.session_duration as int),
                    my_reward <= 0xffffffffffffffffu64,
                    self.session_duration >= 1,
            ;
        }
        let expected128: u128 = (missed as u128) * per_block;
        let expected_slash: Balance = if expected128 > u64::MAX as u128 {
            u64::MAX
        } else {
            expected128 as u64
        };

        let treasury_account: AccountId = self.treasury_account;
        let slash_result = self.try_slash(who, treasury_account, expected_slash);

        match slash_result {
            Ok(_) => {
                self.update_validator_at(record_index, Validator { missed_count: 0, ..record });
            },
            Err(_actual) => {
                self.update_validator_at(
                    record_index,
                    Validator { missed_count: 0, is_active: false, ..record },
                );
                Module::remove_first_account(validators, who);
            },
        }
    }

    /// Removes the first occurrence of an account from a session list, if
    /// any.
    fn remove_first_account(list: &mut Vec<AccountId>, who: AccountId)
        ensures
            final(list)@ == seq_remove_first(old(list)@, who),
    {
        let ghost pre_list = list@;
        let n: usize = list.len();
        let mut k: usize = 0;
        while k < n
            invariant
                list@ == pre_list,
                pre_list == old(list)@,
                n == list@.len(),
                k <= n,
                forall|j: int| 0 <= j < k ==> pre_list[j] != who,
            decreases n - k,
        {
            if list[k] == who {
                proof {
                    lemma_first_index_unique(pre_list, who, k as int);
                }
                list.remove(k);
                return ;
            }
            k = k + 1;
        }
        proof {
            assert(!pre_list.contains(who));
        }
    }

    /// Rewards an active validator and, if it was reported offline in the
    /// last session, immediately slashes it using the just-credited reward
    /// as context.
    pub fn reward_active_intention_and_try_slash(
        &mut self,
        intention: AccountId,
        reward_value: Balance,
        validators: &mut Vec<AccountId>,
    )
        requires
            old(self).wf(),
            old(self).spec_has_validator(intention),
        ensures
            final(self).wf(),
            ({
                let pot = old(self).spec_reward_pot_of(intention);
                let bal1 = spec_reward_balances(old(self).balances@, intention, pot, reward_value);
                let missed = old(self).spec_validator_of(intention).missed_count;
                &&& missed == 0 ==> final(self).balances@ == bal1 && final(self).validators@ == old(
                    self,
                ).validators@ && final(validators)@ == old(validators)@
                &&& missed > 0 ==> ({
                    let pb = map_balance_of(bal1, pot);
                    let expected128 = (missed as int) * ((reward_value as int) / (
                    old(self).session_duration as int));
                    let expected = (if expected128 > u64::MAX {
                        u64::MAX as int
                    } else {
                        expected128
                    }) as Balance;
                    let amount = if expected <= pb {
                        expected
                    } else {
                        pb
                    };
                    let idx = old(self).spec_validator_index(intention);
                    &&& final(self).balances@ == spec_transfer(
                        bal1,
                        pot,
                        old(self).treasury_account,
                        amount,
                    )
                    &&& expected <= pb ==> final(self).validators@ == old(
                        self,
                    ).validators@.update(
                        idx,
                        Validator { missed_count: 0, ..old(self).spec_validator_of(intention) },
                    ) && final(validators)@ == old(validators)@
                    &&& expected > pb ==> final(self).validators@ == old(self).validators@.update(
                        idx,
                        Validator {
                            missed_count: 0,
                            is_active: false,
                            ..old(self).spec_validator_of(intention)
                        },
                    ) && final(validators)@ == seq_remove_first(old(validators)@, intention)
                })
            }),
            forall|w: AccountId|
                #[trigger] final(self).spec_has_validator(w) == old(self).spec_has_validator(w),
            Module::same_config(*old(self), *final(self)),
            Module::same_era_state(*old(self), *final(self)),
            Module::same_events(*old(self), *final(self)),
            Module::same_offenders(*old(self), *final(self)),
            final(self).nominations@ == old(self).nominations@,
    {
        let record_index: usize = match self.find_validator(intention) {
            Some(i) => i,
            None => {
                proof {
                    assert(false);
                }
                0
            },
        };
        proof {
            self.lemma_validator_index_unique(intention, record_index as int);
        }
        let missed: u32 = self.validators[record_index].missed_count;

        self.reward(intention, reward_value);

        if missed > 0 {
            self.slash_active_offline_validator(intention, reward_value, validators);
        }
    }
}

/// One validator's distribution step: its proportional share is split
/// between its balance and its reward pot; a validator with an offline
/// report pending is then slashed by its missed count times the per-block
/// value of the just-credited share, capped by the pot, and force-chilled
/// and removed from the session list when the pot fell short.  An entry
/// whose share is not representable is skipped.  Yields the new ledger,
/// validator records and session list.
pub open spec fn spec_distribute_step(
    bal: Map<AccountId, Balance>,
    vals: Seq<Validator>,
    list: Seq<AccountId>,
    treasury: AccountId,
    session_duration: u64,
    sr: Balance,
    total: u128,
    who: AccountId,
    stake: Balance,
) -> (Map<AccountId, Balance>, Seq<Validator>, Seq<AccountId>) {
    if !spec_proportion_ok(sr, stake as u128, total) {
        (bal, vals, list)
    } else {
        let share = spec_proportion(sr, stake as u128, total) as Balance;
        let idx = seq_validator_index(vals, who);
        let pot = vals[idx].reward_pot;
        let credited = spec_reward_balances(bal, who, pot, share);
        let missed = vals[idx].missed_count;
        if missed == 0 {
            (credited, vals, list)
        } else {
            let pb = map_balance_of(credited, pot);
            let expected128 = (missed as int) * ((share as int) / (session_duration as int));
            let expected = (if expected128 > u64::MAX {
                u64::MAX as int
            } else {
                expected128
            }) as Balance;
            let amount = if expected <= pb {
                expected
            } else {
                pb
            };
            let slashed = spec_transfer(credited, pot, treasury, amount);
            if expected <= pb {
                (slashed, vals.update(idx, Validator { missed_count: 0, ..vals[idx] }), list)
            } else {
                (
                    slashed,
                    vals.update(
                        idx,
                        Validator { missed_count: 0, is_active: false, ..vals[idx] },
                    ),
                    seq_remove_first(list, who),
                )
            }
        }
    }
}

/// The distribution steps of a whole active list, applied in order.
pub open spec fn spec_distribute_fold(
    bal: Map<AccountId, Balance>,
    vals: Seq<Validator>,
    list: Seq<AccountId>,
    treasury: AccountId,
    session_duration: u64,
    sr: Balance,
    total: u128,
    infos: Seq<(AccountId, Balance)>,
) -> (Map<AccountId, Balance>, Seq<Validator>, Seq<AccountId>)
    decreases infos.len(),
{
    if infos.len() == 0 {
        (bal, vals, list)
    } else {
        let prev = spec_distribute_fold(
            bal,
            vals,
            list,
            treasury,
            session_duration,
            sr,
            total,
            infos.drop_last(),
        );
        spec_distribute_step(
            prev.0,
            prev.1,
            prev.2,
            treasury,
            session_duration,
            sr,
            total,
            infos.last().0,
            infos.last().1,
        )
    }
}

impl Module {
    /// Distributes the session reward: computes the halved session reward,
    /// takes the first-round team cut, and rewards every active validator
    /// in proportion of its stake, invoking the offline-slash path for any
    /// validator flagged as having missed the prior session.  Returns the
    /// distributable reward after the team cut.
    pub fn distribute_session_reward(
        &mut self,
        session_index: SessionIndex,
        validators: &mut Vec<AccountId>,
    ) -> (r: Balance)
        requires
            old(self).wf(),
        ensures
            final(self).wf(),
            ({
                let tsr = spec_session_reward(old(self).initial_reward, session_index);
                r == if session_index < SESSIONS_PER_ROUND {
                    (tsr - tsr / 5) as Balance
                } else {
                    tsr
                }
            }),
            forall|w: AccountId|
                #[trigger] final(self).spec_has_validator(w) == old(self).spec_has_validator(w),
            Module::same_config(*old(self), *final(self)),
            Module::same_era_state(*old(self), *final(self)),
            Module::same_events(*old(self), *final(self)),
            Module::same_offenders(*old(self), *final(self)),
            final(self).nominations@ == old(self).nominations@,
            ({
                let tsr = spec_session_reward(old(self).initial_reward, session_index);
                let sr = if session_index < SESSIONS_PER_ROUND {
                    (tsr - tsr / 5) as Balance
                } else {
                    tsr
                };
                let after_team = if session_index < SESSIONS_PER_ROUND {
                    spec_issue(old(self).balances@, old(self).team_account, (tsr / 5) as Balance)
                } else {
                    old(self).balances@
                };
                let infos = spec_active_intentions(old(self).validators@);
                let total = spec_total_stake(infos);
                &&& total == 0 ==> final(self).balances@ == after_team && final(self).validators@
                    == old(self).validators@ && final(validators)@ == old(validators)@
                &&& total > 0 ==> ({
                    let d = spec_distribute_fold(
                        after_team,
                        old(self).validators@,
                        old(validators)@,
                        old(self).treasury_account,
                        old(self).session_duration,
                        sr,
                        total as u128,
                        infos,
                    );
                    &&& final(self).balances@ == d.0
                    &&& final(self).validators@ == d.1
                    &&& final(validators)@ == d.2
                })
            }),
    {
        let this_reward: Balance = self.this_session_reward(session_index);
        let session_reward: Balance = self.try_fund_team(this_reward, session_index);

        let infos: Vec<(AccountId, Balance)> = self.get_active_intentions_info();
        let n: usize = infos.len();

        let mut total_stake: u128 = 0;
        let mut k: usize = 0;
        while k < n
            invariant
                n == infos@.len(),
                k <= n,
                total_stake == spec_total_stake(infos@.take(k as int)),
                total_stake <= (k as int) * 0xffffffffffffffff,
            decreases n - k,
        {
            proof {
                assert(infos@.take(k + 1 as int).drop_last() =~= infos@.take(k as int));
                assert(infos@.take(k + 1 as int).last() == infos@[k as int]);
            }
            total_stake = total_stake + (infos[k].1 as u128);
            k = k + 1;
        }
        proof {
            assert(infos@.take(n as int) =~= infos@);
        }

        if total_stake == 0 {
            return session_reward;
        }

        let ghost base = *self;
        let ghost bal_after_team = self.balances@;
        let ghost list0 = validators@;

        let mut i: usize = 0;
        while i < n
            invariant
                base.wf(),
                self.wf(),
                n == infos@.len(),
                i <= n,
                1 <= total_stake,
                infos@ == spec_active_intentions(base.validators@),
                total_stake == spec_total_stake(infos@),
                bal_after_team == base.balances@,
                list0 == old(validators)@,
                forall|w: AccountId|
                    #[trigger] self.spec_has_validator(w) == base.spec_has_validator(w),
                Module::same_config(base, *self),
                Module::same_era_state(base, *self),
                Module::same_events(base, *self),
                Module::same_offenders(base, *self),
                self.nominations@ == base.nominations@,
                ({
                    let d = spec_distribute_fold(
                        bal_after_team,
                        base.validators@,
                        list0,
                        base.treasury_account,
                        base.session_duration,
                        session_reward,
                        total_stake,
                        infos@.take(i as int),
                    );
                    &&& self.balances@ == d.0
                    &&& self.validators@ == d.1
                    &&& validators@ == d.2
                }),
            decreases n - i,
        {
            let who: AccountId = infos[i].0;
            let stake: Balance = infos[i].1;
            proof {
                lemma_active_intentions_entry(base.validators@, i as int);
                assert(infos@.take(i + 1 as int).drop_last() =~= infos@.take(i as int));
                assert(infos@.take(i + 1 as int).last() == infos@[i as int]);
                assert(base.spec_has_validator(who));
            }
            match Module::generic_calculate_by_proportion(
                session_reward,
                stake as u128,
                total_stake,
            ) {
                Ok(share) => {
                    self.reward_active_intention_and_try_slash(who, share, validators);
                },
                Err(_) => {},
            }
            i = i + 1;
        }
        proof {
            assert(infos@.take(n as int) =~= infos@);
        }
        session_reward
    }
}

/// `(v/d)*n + ((v%d)*n)/d` equals `v*n/d` and everything stays within
/// bounds when `n <= d` and `d >= 1`.
proof fn lemma_mbr_parts(v: int, n: int, d: int)
    requires
        0 <= v,
        0 <= n <= d,
        1 <= d,
    ensures
        v / d * n + v % d * n / d == v * n / d,
        v / d * n <= v,
        v % d * n / d < d,
        v * n / d <= v,
{
    assert(v / d * n + v % d * n / d == v * n / d) by (nonlinear_arith)
        requires
            0 <= v,
            0 <= n <= d,
            1 <= d,
    ;
    assert(v / d * n <= v) by (nonlinear_arith)
        requires
            0 <= v,
            0 <= n <= d,
            1 <= d,
    ;
    assert(v % d * n / d < d) by (nonlinear_arith)
        requires
            0 <= v,
            0 <= n <= d,
            1 <= d,
    ;
    assert(v * n / d <= v) by (nonlinear_arith)
        requires
            0 <= v,
            0 <= n <= d,
            1 <= d,
    ;
}

/// Reward split law: crediting a validator adds exactly one tenth of the
/// reward to its own balance and the remaining nine tenths to its reward
/// pot, touching no other account, whenever both credits stay in range.
pub proof fn lemma_reward_split(
    m: Map<AccountId, Balance>,
    who: AccountId,
    pot: AccountId,
    value: Balance,
)
    requires
        who != pot,
        map_balance_of(m, who) + value / 10 <= u64::MAX,
        map_balance_of(m, pot) + (value - value / 10) <= u64::MAX,
    ensures
        map_balance_of(spec_reward_balances(m, who, pot, value), who) == map_balance_of(m, who)
            + value / 10,
        map_balance_of(spec_reward_balances(m, who, pot, value), pot) == map_balance_of(m, pot) + (
        value - value / 10),
        forall|a: AccountId|
            a != who && a != pot ==> map_balance_of(#[trigger] spec_reward_balances(m, who, pot, value), a)
                == map_balance_of(m, a),
{
}

/// One tenth of every credit, summed.
pub open spec fn spec_sum_tenths(values: Seq<Balance>) -> int
    decreases values.len(),
{
    if values.len() == 0 {
        0
    } else {
        spec_sum_tenths(values.drop_last()) + values.last() / 10
    }
}

/// The nine-tenths remainder of every credit, summed.
pub open spec fn spec_sum_remainders(values: Seq<Balance>) -> int
    decreases values.len(),
{
    if values.len() == 0 {
        0
    } else {
        spec_sum_remainders(values.drop_last()) + (values.last() - values.last() / 10)
    }
}

/// The ledger after a validator earned one reward credit per session of a
/// run of sessions.
pub open spec fn spec_reward_many(
    m: Map<AccountId, Balance>,
    who: AccountId,
    pot: AccountId,
    values: Seq<Balance>,
) -> Map<AccountId, Balance>
    decreases values.len(),
{
    if values.len() == 0 {
        m
    } else {
        spec_reward_balances(
            spec_reward_many(m, who, pot, values.drop_last()),
            who,
            pot,
            values.last(),
        )
    }
}

/// Neither split sum is negative, and neither exceeds the other's run.
proof fn lemma_sums_nonneg(values: Seq<Balance>)
    ensures
        0 <= spec_sum_tenths(values),
        0 <= spec_sum_remainders(values),
    decreases values.len(),
{
    if values.len() > 0 {
        lemma_sums_nonneg(values.drop_last());
    }
}

/// Round-trip accumulation law: a validator with no slash events, earning
/// one reward credit per session over a run of sessions, accumulates
/// exactly the sum of the per-session one-tenth shares in its own balance
/// and the sum of the per-session nine-tenths shares in its reward pot,
/// while every other account is untouched — provided both accounts can
/// take the totals.
pub proof fn lemma_round_trip_accumulation(
    m: Map<AccountId, Balance>,
    who: AccountId,
    pot: AccountId,
    values: Seq<Balance>,
)
    requires
        who != pot,
        map_balance_of(m, who) + spec_sum_tenths(values) <= u64::MAX,
        map_balance_of(m, pot) + spec_sum_remainders(values) <= u64::MAX,
    ensures
        map_balance_of(spec_reward_many(m, who, pot, values), who) == map_balance_of(m, who)
            + spec_sum_tenths(values),
        map_balance_of(spec_reward_many(m, who, pot, values), pot) == map_balance_of(m, pot)
            + spec_sum_remainders(values),
        forall|a: AccountId|
            a != who && a != pot ==> map_balance_of(
                #[trigger] spec_reward_many(m, who, pot, values), a)
                == map_balance_of(m, a),
    decreases values.len(),
{
    if values.len() > 0 {
        lemma_sums_nonneg(values.drop_last());
        lemma_round_trip_accumulation(m, who, pot, values.drop_last());
        lemma_reward_split(
            spec_reward_many(m, who, pot, values.drop_last()),
            who,
            pot,
            values.last(),
        );
    }
}

/// The share of a zero weight is zero.
pub proof fn lemma_proportion_zero(total_reward: Balance, total: u128)
    requires
        total >= 1,
    ensures
        spec_proportion(total_reward, 0, total) == 0,
{
    assert((0 as int) * (total_reward as int) == 0);
    assert((0 as int) / (total as int) == 0);
}

/// The share of the whole weight is the whole reward.
pub proof fn lemma_proportion_full(total_reward: Balance, total: u128)
    requires
        total >= 1,
    ensures
        spec_proportion(total_reward, total, total) == total_reward,
{
    lemma_div_multiples_vanish(total_reward as int, total as int);
    assert((total as int) * (total_reward as int) == (total as int) * (total_reward as int));
}

/// The proportional share is monotonic in the claimed weight.
pub proof fn lemma_proportion_monotonic(total_reward: Balance, m1: u128, m2: u128, total: u128)
    requires
        total >= 1,
        m1 <= m2,
    ensures
        spec_proportion(total_reward, m1, total) <= spec_proportion(total_reward, m2, total),
{
    lemma_mul_inequality(m1 as int, m2 as int, total_reward as int);
    lemma_div_is_ordered(
        (m1 as int) * (total_reward as int),
        (m2 as int) * (total_reward as int),
        total as int,
    );
}

} // verus!
