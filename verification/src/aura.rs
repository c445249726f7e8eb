use vstd::prelude::*;

use vstd::arithmetic::div_mod::lemma_div_is_ordered_by_denominator;
use vstd::arithmetic::div_mod::lemma_mod_add_multiples_vanish;
use vstd::arithmetic::div_mod::lemma_small_mod;

use crate::state::Module;
use crate::types::AccountId;
use crate::types::Balance;
use crate::types::Validator;

verus! {

/// A report of skipped authorities in the round-robin slot rotation: a
/// contiguous run of `skipped` slots beginning at `start_slot` went
/// without a block.
#[derive(Clone, Copy, PartialEq, Eq, Structural, Debug)]
pub struct AuraReport {
    /// The first skipped slot.
    pub start_slot: u64,
    /// The number of slots that were skipped.
    pub skipped: u64,
}

/// The punishment pairs a report assigns over a rotation of `n`
/// positions: with `base` the turns everyone missed and `extra` the count
/// of positions that missed once more, the `extra` positions after the
/// starting one each owe `base + 1`, the rest owe `base`; positions owed
/// nothing are not listed.
pub open spec fn spec_punish_pairs(report: AuraReport, n: u64) -> Seq<(u64, u64)> {
    let start = report.start_slot as int % (n as int);
    let base = report.skipped as int / (n as int);
    let extra = report.skipped as int % (n as int);
    Seq::new(
        (if base > 0 {
            n as int
        } else {
            extra
        }) as nat,
        |i: int|
            ((((start + i) % (n as int)) as u64, (base + (if i < extra {
                1int
            } else {
                0int
            })) as u64)),
    )
}

/// The validator sequence with `who`'s pending missed count raised by
/// one, saturating; without such a validator, the sequence unchanged.
pub open spec fn spec_bump_missed(vals: Seq<Validator>, who: AccountId) -> Seq<Validator> {
    if crate::state::seq_has_validator(vals, who) {
        let i = crate::state::seq_validator_index(vals, who);
        vals.update(
            i,
            Validator {
                missed_count: if vals[i].missed_count < u32::MAX {
                    (vals[i].missed_count + 1) as u32
                } else {
                    vals[i].missed_count
                },
                ..vals[i]
            },
        )
    } else {
        vals
    }
}

/// The validator sequence after every punished rotation position, taken
/// in order, had its validator's missed count raised.
pub open spec fn spec_apply_report(
    vals: Seq<Validator>,
    ids: Seq<AccountId>,
    pairs: Seq<(u64, u64)>,
) -> Seq<Validator>
    decreases pairs.len(),
{
    if pairs.len() == 0 {
        vals
    } else {
        let prev = spec_apply_report(vals, ids, pairs.drop_last());
        let idx = pairs.last().0;
        if idx < ids.len() {
            spec_bump_missed(prev, ids[idx as int])
        } else {
            prev
        }
    }
}

impl AuraReport {
    /// Assigns punishment counts to rotation positions: every position
    /// missed `skipped / validator_count` turns, and the `skipped %
    /// validator_count` positions following `start_slot`'s, in rotation
    /// order with wrap-around, missed one more.  Positions owed nothing
    /// are not emitted.
    pub fn punish(&self, validator_count: u64) -> (r: Vec<(u64, u64)>)
        requires
            validator_count >= 1,
        ensures
            ({
                let n = validator_count as int;
                let start = self.start_slot as int % n;
                let base = self.skipped as int / n;
                let extra = self.skipped as int % n;
                &&& r@.len() == if base > 0 {
                    n
                } else {
                    extra
                }
                &&& forall|i: int|
                    0 <= i < r@.len() ==> #[trigger] r@[i] == ((((start + i) % n) as u64, (base + (
                    if i < extra {
                        1int
                    } else {
                        0int
                    })) as u64))
                &&& forall|i: int| 0 <= i < r@.len() ==> (#[trigger] r@[i]).0 < validator_count
                &&& r@ == spec_punish_pairs(*self, validator_count)
            }),
    {
        let n: u64 = validator_count;
        let start_slot: u64 = self.start_slot % n;
        // the number of times everyone was skipped.
        let skipped_all: u64 = self.skipped / n;
        // the number of positions that were skipped once more after that.
        let skipped_after: u64 = self.skipped % n;

        let limit: u64 = if skipped_all > 0 {
            n
        } else {
            skipped_after
        };

        proof {
            if skipped_after >= 1 {
                lemma_div_is_ordered_by_denominator(self.skipped as int, 2, n as int);
            }
        }

        let mut out: Vec<(u64, u64)> = Vec::new();
        let mut rel_index: u64 = 0;
        while rel_index < limit
            invariant
                1 <= n,
                start_slot == self.start_slot as int % (n as int),
                start_slot < n,
                skipped_all == self.skipped as int / (n as int),
                skipped_after == self.skipped as int % (n as int),
                skipped_after < n,
                skipped_after >= 1 ==> skipped_all <= self.skipped / 2 < u64::MAX,
                limit == if skipped_all > 0 {
                    n as int
                } else {
                    skipped_after as int
                },
                limit <= n,
                rel_index <= limit,
                out@.len() == rel_index,
                forall|i: int|
                    0 <= i < rel_index ==> #[trigger] out@[i] == ((((start_slot + i) % (
                    n as int)) as u64, (skipped_all + (if i < skipped_after {
                        1int
                    } else {
                        0int
                    })) as u64)),
                forall|i: int| 0 <= i < rel_index ==> (#[trigger] out@[i]).0 < n,
            decreases limit - rel_index,
        {
            let actual_index: u64 = if rel_index < n - start_slot {
                start_slot + rel_index
            } else {
                rel_index - (n - start_slot)
            };
            proof {
                if rel_index < n - start_slot {
                    lemma_small_mod((start_slot + rel_index) as nat, n as nat);
                } else {
                    lemma_mod_add_multiples_vanish(actual_index as int, n as int);
                    lemma_small_mod(actual_index as nat, n as nat);
                    assert(start_slot as int + rel_index as int == n + actual_index);
                }
            }
            let slash_count: u64 = skipped_all + (if rel_index < skipped_after {
                1
            } else {
                0
            });
            out.push((actual_index, slash_count));
            rel_index = rel_index + 1;
        }
        proof {
            assert(out@ =~= spec_punish_pairs(*self, validator_count));
        }
        out
    }
}

impl Module {
    /// The slot duration: twice the smallest admissible block period, so
    /// each author can always propose within the majority of its slot.
    pub fn slot_duration(&self) -> (r: u64)
        ensures
            r == if 2 * (self.minimum_period as int) <= u64::MAX {
                2 * (self.minimum_period as int)
            } else {
                u64::MAX as int
            },
    {
        if self.minimum_period <= u64::MAX / 2 {
            self.minimum_period * 2
        } else {
            u64::MAX
        }
    }

    /// Takes note of a block's timestamp and reports the slots skipped
    /// since the block seen before it, if any.  The first block observed
    /// only primes the clock.
    pub fn on_timestamp_set(&mut self, now: u64, slot_duration: u64) -> (r: Option<AuraReport>)
        requires
            slot_duration >= 1,
            old(self).last_timestamp > 0 ==> old(self).last_timestamp / slot_duration < now
                / slot_duration,
        ensures
            final(self).last_timestamp == now,
            Module::same_config(*old(self), *final(self)),
            Module::same_balances(*old(self), *final(self)),
            Module::same_stake_state(*old(self), *final(self)),
            Module::same_events(*old(self), *final(self)),
            Module::same_offenders(*old(self), *final(self)),
            final(self).current_era == old(self).current_era,
            final(self).active_era == old(self).active_era,
            final(self).eras_start_session_index@ == old(self).eras_start_session_index@,
            final(self).force_era == old(self).force_era,
            final(self).is_current_session_final == old(self).is_current_session_final,
            old(self).last_timestamp == 0 ==> r is None,
            old(self).last_timestamp > 0 ==> ({
                let last_slot = old(self).last_timestamp as int / slot_duration as int;
                let cur_slot = now as int / slot_duration as int;
                &&& cur_slot == last_slot + 1 ==> r is None
                &&& cur_slot > last_slot + 1 ==> r == Some(
                    AuraReport {
                        start_slot: (last_slot + 1) as u64,
                        skipped: (cur_slot - last_slot - 1) as u64,
                    },
                )
            }),
    {
        let last: u64 = self.last_timestamp;
        self.last_timestamp = now;

        if last == 0 {
            return None;
        }

        let last_slot: u64 = last / slot_duration;
        let first_skipped: u64 = last_slot + 1;
        let cur_slot: u64 = now / slot_duration;

        if cur_slot == first_skipped {
            return None;
        }

        let skipped_slots: u64 = cur_slot - last_slot - 1;

        Some(AuraReport { start_slot: first_skipped, skipped: skipped_slots })
    }

    /// Hands an aura report to the staking side: every punished rotation
    /// position has its validator's pending missed count raised, to be
    /// slashed with its next reward credit.
    pub fn handle_report(&mut self, report: &AuraReport)
        requires
            old(self).wf(),
        ensures
            final(self).wf(),
            final(self).validators@.len() == old(self).validators@.len(),
            forall|i: int|
                0 <= i < old(self).validators@.len() ==> #[trigger] final(self).validators@[i]
                    == (Validator {
                    missed_count: final(self).validators@[i].missed_count,
                    ..old(self).validators@[i]
                }),
            forall|i: int|
                0 <= i < old(self).validators@.len()
                    ==> (#[trigger] final(self).validators@[i]).missed_count
                    >= old(self).validators@[i].missed_count,
            forall|w: AccountId|
                #[trigger] final(self).spec_has_validator(w) == old(self).spec_has_validator(w),
            ({
                let infos = crate::reward::spec_active_intentions(old(self).validators@);
                let ids = Seq::new(infos.len(), |j: int| infos[j].0);
                &&& infos.len() == 0 ==> final(self).validators@ == old(self).validators@
                &&& infos.len() > 0 ==> final(self).validators@ == spec_apply_report(
                    old(self).validators@,
                    ids,
                    spec_punish_pairs(*report, infos.len() as u64),
                )
            }),
            Module::same_config(*old(self), *final(self)),
            Module::same_era_state(*old(self), *final(self)),
            Module::same_balances(*old(self), *final(self)),
            Module::same_events(*old(self), *final(self)),
            Module::same_offenders(*old(self), *final(self)),
            final(self).nominations@ == old(self).nominations@,
    {
        let ghost base = *self;
        let infos: Vec<(AccountId, Balance)> = self.get_active_intentions_info();
        let n: usize = infos.len();
        if n == 0 {
            return ;
        }
        let mut ids: Vec<AccountId> = Vec::new();
        let mut k: usize = 0;
        while k < n
            invariant
                n == infos@.len(),
                k <= n,
                ids@.len() == k,
                forall|j: int| 0 <= j < k ==> ids@[j] == (#[trigger] infos@[j]).0,
            decreases n - k,
        {
            ids.push(infos[k].0);
            k = k + 1;
        }

        proof {
            assert(ids@ =~= Seq::new(infos@.len(), |j: int| infos@[j].0));
        }
        let ghost gids = ids@;

        let pairs: Vec<(u64, u64)> = report.punish(n as u64);

        let m: usize = pairs.len();
        let mut p: usize = 0;
        while p < m
            invariant
                base.wf(),
                self.wf(),
                m == pairs@.len(),
                p <= m,
                n == infos@.len(),
                n >= 1,
                infos@ == crate::reward::spec_active_intentions(base.validators@),
                ids@.len() == n,
                ids@ == gids,
                forall|j: int| 0 <= j < n ==> ids@[j] == (#[trigger] infos@[j]).0,
                forall|i: int| 0 <= i < m ==> (#[trigger] pairs@[i]).0 < n,
                pairs@ == spec_punish_pairs(*report, n as u64),
                self.validators@ == spec_apply_report(
                    base.validators@,
                    gids,
                    pairs@.take(p as int),
                ),
                self.validators@.len() == base.validators@.len(),
                forall|i: int|
                    0 <= i < base.validators@.len() ==> #[trigger] self.validators@[i]
                        == (Validator {
                        missed_count: self.validators@[i].missed_count,
                        ..base.validators@[i]
                    }),
                forall|i: int|
                    0 <= i < base.validators@.len() ==> (#[trigger] self.validators@[i]).missed_count
                        >= base.validators@[i].missed_count,
                forall|w: AccountId|
                    #[trigger] self.spec_has_validator(w) == base.spec_has_validator(w),
                Module::same_config(base, *self),
                Module::same_era_state(base, *self),
                Module::same_balances(base, *self),
                Module::same_events(base, *self),
                Module::same_offenders(base, *self),
                self.nominations@ == base.nominations@,
            decreases m - p,
        {
            let idx: u64 = pairs[p].0;
            let who: AccountId = ids[idx as usize];
            proof {
                crate::reward::lemma_active_intentions_entry(base.validators@, idx as int);
                assert(base.spec_has_validator(who));
                assert(pairs@.take(p + 1 as int).drop_last() =~= pairs@.take(p as int));
                assert(pairs@.take(p + 1 as int).last() == pairs@[p as int]);
            }
            let ghost mid = *self;
            match self.find_validator(who) {
                Some(vi) => {
                    proof {
                        mid.lemma_validator_index_unique(who, vi as int);
                    }
                    let record: Validator = self.validators[vi];
                    let bumped: u32 = if record.missed_count < u32::MAX {
                        record.missed_count + 1
                    } else {
                        record.missed_count
                    };
                    self.update_validator_at(vi, Validator { missed_count: bumped, ..record });
                    proof {
                        assert(self.validators@ == spec_bump_missed(mid.validators@, who));
                    }
                },
                None => {
                    proof {
                        assert(false);
                    }
                },
            }
            p = p + 1;
        }
        proof {
            assert(pairs@.take(m as int) =~= pairs@);
        }
    }
}

} // verus!
