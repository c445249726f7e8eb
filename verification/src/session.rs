use vstd::prelude::*;

use crate::assets::spec_issue;
use crate::reward::spec_active_intentions;
use crate::reward::spec_distribute_fold;
use crate::reward::spec_session_reward;
use crate::reward::spec_total_stake;
use crate::slashing::seq_active_count;
use crate::slashing::spec_slash_fold;
use crate::state::Module;
use crate::types::AccountId;
use crate::types::ActiveEraInfo;
use crate::types::Balance;
use crate::types::EraIndex;
use crate::types::Forcing;
use crate::types::SessionIndex;
use crate::types::Validator;
use crate::types::SESSIONS_PER_ROUND;

verus! {

/// The accounts of the active validators, in order.
pub open spec fn spec_active_ids(s: Seq<Validator>) -> Seq<AccountId> {
    Seq::new(spec_active_intentions(s).len(), |j: int| spec_active_intentions(s)[j].0)
}

impl Module {
    /// The ledger, the validator records and the force-chill tally after
    /// the two phases a session boundary runs first: the session reward
    /// is distributed over the active validators (with the first-round
    /// team cut and the offline-slash path), then the buffered offenders
    /// are slashed.
    pub open spec fn spec_session_phases(s: Module, session_index: SessionIndex) -> (
        Map<AccountId, Balance>,
        Seq<Validator>,
        int,
    ) {
        let tsr = spec_session_reward(s.initial_reward, session_index);
        let sr = if session_index < SESSIONS_PER_ROUND {
            (tsr - tsr / 5) as Balance
        } else {
            tsr
        };
        let after_team = if session_index < SESSIONS_PER_ROUND {
            spec_issue(s.balances@, s.team_account, (tsr / 5) as Balance)
        } else {
            s.balances@
        };
        let infos = spec_active_intentions(s.validators@);
        let total = spec_total_stake(infos);
        let ids = spec_active_ids(s.validators@);
        let d = if total == 0 {
            (after_team, s.validators@)
        } else {
            let dd = spec_distribute_fold(
                after_team,
                s.validators@,
                ids,
                s.treasury_account,
                s.session_duration,
                sr,
                total as u128,
                infos,
            );
            (dd.0, dd.1)
        };
        let f = spec_slash_fold(
            d.0,
            d.1,
            s.treasury_account,
            s.minimum_validator_count,
            seq_active_count(d.1),
            0,
            s.offenders_in_session@,
        );
        (f.0, f.1, f.3)
    }

    /// The forcing flag after the slash phase: a non-zero chill tally
    /// marks a pending forced era transition, unless eras are forced
    /// always anyway.
    pub open spec fn spec_post_slash_force(force: Forcing, force_chilled: int) -> Forcing {
        if force_chilled > 0 {
            match force {
                Forcing::ForceAlways => Forcing::ForceAlways,
                _ => Forcing::ForceNew,
            }
        } else {
            force
        }
    }

    /// How many sessions the era starting at its recorded session has
    /// lasted by `session_index`; a missing or later record counts zero.
    pub open spec fn spec_era_length(
        esi: Seq<SessionIndex>,
        era: EraIndex,
        session_index: SessionIndex,
    ) -> int {
        let start = if (era as int) < esi.len() {
            esi[era as int] as int
        } else {
            0
        };
        if session_index >= start {
            session_index - start
        } else {
            0
        }
    }

    /// Whether the era-length policy ends the current era now: a one-shot
    /// or permanent force always does, `NotForcing` exactly at the ideal
    /// length, `ForceNone` never.
    pub open spec fn spec_era_triggered(force: Forcing, era_length: int, ideal: int) -> bool {
        match force {
            Forcing::ForceNew => true,
            Forcing::ForceAlways => true,
            Forcing::NotForcing => era_length >= ideal,
            Forcing::ForceNone => false,
        }
    }
    /// The latest planned era as a number, `-1` before the first era.
    pub open spec fn spec_current_era_num(self) -> int {
        match self.current_era {
            Option::None => -1,
            Option::Some(e) => e as int,
        }
    }

    /// The active era as a number, `-1` before the first era starts.
    pub open spec fn spec_active_era_num(self) -> int {
        match self.active_era {
            Option::None => -1,
            Option::Some(a) => a.index as int,
        }
    }

    /// One start session is recorded for every planned era, in order.
    pub open spec fn era_index_wf(self) -> bool {
        self.eras_start_session_index@.len() == self.spec_current_era_num() + 1
    }

    /// All fields but the era bookkeeping are the same in both states.
    pub open spec fn same_but_era(pre: Module, post: Module) -> bool {
        &&& Module::same_config(pre, post)
        &&& Module::same_balances(pre, post)
        &&& Module::same_stake_state(pre, post)
        &&& Module::same_events(pre, post)
        &&& Module::same_offenders(pre, post)
    }

    /// Marks a pending forced era transition, unless one is already forced.
    pub fn ensure_new_era(&mut self)
        ensures
            final(self).force_era == (match old(self).force_era {
                Forcing::ForceAlways => Forcing::ForceAlways,
                Forcing::ForceNew => Forcing::ForceNew,
                _ => Forcing::ForceNew,
            }),
            Module::same_but_era(*old(self), *final(self)),
            final(self).current_era == old(self).current_era,
            final(self).active_era == old(self).active_era,
            final(self).eras_start_session_index@ == old(self).eras_start_session_index@,
            final(self).is_current_session_final == old(self).is_current_session_final,
            final(self).last_timestamp == old(self).last_timestamp,
    {
        match self.force_era {
            Forcing::ForceAlways => (),
            Forcing::ForceNew => (),
            _ => {
                self.force_era = Forcing::ForceNew;
            },
        }
    }

    /// Plans the next era: increments the planned era index (or plans the
    /// initial era), records its start session, and returns the active
    /// validator set that is to serve in it.
    fn new_era(&mut self, session_index: SessionIndex) -> (r: Option<Vec<AccountId>>)
        requires
            old(self).wf(),
            old(self).era_index_wf(),
            old(self).spec_current_era_num() < u32::MAX,
        ensures
            final(self).wf(),
            final(self).era_index_wf(),
            final(self).spec_current_era_num() == old(self).spec_current_era_num() + 1,
            final(self).eras_start_session_index@ == old(self).eras_start_session_index@.push(
                session_index,
            ),
            r matches Some(ids) ==> ({
                let infos = crate::reward::spec_active_intentions(old(self).validators@);
                ids@.len() == infos.len() && forall|k: int|
                    0 <= k < infos.len() ==> ids@[k] == (#[trigger] infos[k]).0
            }),
            r is Some,
            Module::same_but_era(*old(self), *final(self)),
            final(self).active_era == old(self).active_era,
            final(self).force_era == old(self).force_era,
            final(self).is_current_session_final == old(self).is_current_session_final,
            final(self).last_timestamp == old(self).last_timestamp,
    {
        let next: u32 = match self.current_era {
            Some(e) => e + 1,
            None => 0,
        };
        self.current_era = Some(next);
        self.eras_start_session_index.push(session_index);

        let infos: Vec<(AccountId, Balance)> = self.get_active_intentions_info();
        let n: usize = infos.len();
        let mut ids: Vec<AccountId> = Vec::new();
        let mut k: usize = 0;
        while k < n
            invariant
                n == infos@.len(),
                k <= n,
                ids@.len() == k,
                forall|j: int| 0 <= j < k ==> ids@[j] == (#[trigger] infos@[j]).0,
            decreases n - k,
        {
            ids.push(infos[k].0);
            k = k + 1;
        }
        Some(ids)
    }

    /// Plans a new session: distributes the session reward, slashes the
    /// offenders buffered during the session (forcing an era change if any
    /// offender was chilled), and then applies the era-length policy.
    /// Returns the validator set of the newly planned era, or `None` when
    /// the current era goes on.
    pub fn new_session(&mut self, session_index: SessionIndex) -> (r: Option<Vec<AccountId>>)
        requires
            old(self).wf(),
            old(self).era_index_wf(),
            old(self).spec_current_era_num() < u32::MAX,
        ensures
            final(self).wf(),
            final(self).era_index_wf(),
            final(self).offenders_in_session@.len() == 0,
            final(self).nominations@ == old(self).nominations@,
            Module::same_config(*old(self), *final(self)),
            Module::same_events(*old(self), *final(self)),
            final(self).active_era == old(self).active_era,
            final(self).last_timestamp == old(self).last_timestamp,
            old(self).spec_current_era_num() <= final(self).spec_current_era_num() <= old(
                self,
            ).spec_current_era_num() + 1,
            (r is Some) <==> final(self).spec_current_era_num() == old(self).spec_current_era_num()
                + 1,
            // §4.4 in full: the reward and slash phases settle the ledger
            // and the validator records; the forcing flag and the era
            // length then decide whether a new era is planned, `ForceNew`
            // being consumed by exactly that transition, and the last
            // session before an ideal-length boundary is marked final.
            ({
                let ph = Module::spec_session_phases(*old(self), session_index);
                let force1 = Module::spec_post_slash_force(old(self).force_era, ph.2);
                &&& final(self).balances@ == ph.0
                &&& final(self).validators@ == ph.1
                &&& match old(self).current_era {
                    Option::None => {
                        &&& r is Some
                        &&& final(self).current_era == Some(0u32)
                        &&& final(self).force_era == force1
                        &&& final(self).is_current_session_final
                            == old(self).is_current_session_final
                    },
                    Option::Some(e) => {
                        let era_length = Module::spec_era_length(
                            old(self).eras_start_session_index@,
                            e,
                            session_index,
                        );
                        let ideal = old(self).sessions_per_era as int;
                        let triggered = Module::spec_era_triggered(force1, era_length, ideal);
                        &&& triggered ==> (r is Some)
                            && final(self).current_era == Some((e + 1) as u32)
                            && final(self).force_era == (if force1 == Forcing::ForceNew {
                            Forcing::NotForcing
                        } else {
                            force1
                        })
                            && final(self).is_current_session_final
                            == old(self).is_current_session_final
                        &&& !triggered ==> (r is None)
                            && final(self).current_era == old(self).current_era
                            && final(self).force_era == force1
                            && final(self).is_current_session_final
                            == (old(self).is_current_session_final || era_length + 1 == ideal)
                    },
                }
            }),
            r matches Some(ids) ==> ({
                let infos = crate::reward::spec_active_intentions(final(self).validators@);
                ids@.len() == infos.len() && forall|k: int|
                    0 <= k < infos.len() ==> ids@[k] == (#[trigger] infos[k]).0
            }),
            r is Some ==> final(self).eras_start_session_index@ == old(
                self,
            ).eras_start_session_index@.push(session_index),
            r is None ==> final(self).eras_start_session_index@ == old(
                self,
            ).eras_start_session_index@,
    {
        let ghost s0 = *old(self);
        let ghost ph = Module::spec_session_phases(s0, session_index);

        let infos: Vec<(AccountId, Balance)> = self.get_active_intentions_info();
        let n: usize = infos.len();
        let mut session_validators: Vec<AccountId> = Vec::new();
        let mut k: usize = 0;
        while k < n
            invariant
                n == infos@.len(),
                k <= n,
                session_validators@.len() == k,
                forall|j: int| 0 <= j < k ==> session_validators@[j] == (#[trigger] infos@[j]).0,
            decreases n - k,
        {
            session_validators.push(infos[k].0);
            k = k + 1;
        }
        proof {
            assert(session_validators@ =~= spec_active_ids(s0.validators@));
        }

        let _staking_reward: Balance = self.distribute_session_reward(
            session_index,
            &mut session_validators,
        );

        proof {
            let tsr = spec_session_reward(s0.initial_reward, session_index);
            let sr = if session_index < SESSIONS_PER_ROUND {
                (tsr - tsr / 5) as Balance
            } else {
                tsr
            };
            let after_team = if session_index < SESSIONS_PER_ROUND {
                spec_issue(s0.balances@, s0.team_account, (tsr / 5) as Balance)
            } else {
                s0.balances@
            };
            let infos0 = spec_active_intentions(s0.validators@);
            let total0 = spec_total_stake(infos0);
            let ids0 = spec_active_ids(s0.validators@);
            crate::reward::lemma_total_stake_nonneg(infos0);
            if total0 == 0 {
                assert(self.balances@ == after_team);
                assert(self.validators@ == s0.validators@);
            } else {
                let dd = spec_distribute_fold(
                    after_team,
                    s0.validators@,
                    ids0,
                    s0.treasury_account,
                    s0.session_duration,
                    sr,
                    total0 as u128,
                    infos0,
                );
                assert(self.balances@ == dd.0);
                assert(self.validators@ == dd.1);
            }
        }

        let force_chilled: u64 = self.slash_offenders_in_session();

        proof {
            assert(self.balances@ == ph.0);
            assert(self.validators@ == ph.1);
            assert(force_chilled as int == ph.2);
        }

        if force_chilled > 0 {
            // Force a new era if some offender's reward pot was wholly
            // slashed away.
            self.ensure_new_era();
        }

        match self.current_era {
            Some(current_era) => {
                // The initial era has been planned already.
                let current_era_start_session_index: SessionIndex = if (current_era as usize)
                    < self.eras_start_session_index.len() {
                    self.eras_start_session_index[current_era as usize]
                } else {
                    0
                };

                let era_length: SessionIndex = if session_index
                    >= current_era_start_session_index {
                    session_index - current_era_start_session_index
                } else {
                    0
                };

                let ideal_era_length: SessionIndex = self.sessions_per_era;

                match self.force_era {
                    Forcing::ForceNew => {
                        self.force_era = Forcing::NotForcing;
                        self.new_era(session_index)
                    },
                    Forcing::ForceAlways => self.new_era(session_index),
                    Forcing::NotForcing if era_length >= ideal_era_length => self.new_era(
                        session_index,
                    ),
                    _ => {
                        // Either forcing is off for good, or the era has
                        // not reached its ideal length yet.
                        if (era_length as u64) + 1 == (ideal_era_length as u64) {
                            self.is_current_session_final = true;
                        }
                        None
                    },
                }
            },
            None => {
                // Plan the initial era.
                self.new_era(session_index)
            },
        }
    }

    /// Starts a session, potentially starting an era: the era whose
    /// recorded start session has arrived (or was skipped over, a
    /// scheduling anomaly that must not stall the machine) becomes active.
    pub fn start_session(&mut self, start_session_index: SessionIndex)
        requires
            old(self).active_era matches Some(a) ==> a.index < u32::MAX,
        ensures
            ({
                let next = old(self).spec_active_era_num() + 1;
                let esi = old(self).eras_start_session_index@;
                if 0 <= next < esi.len() && esi[next] <= start_session_index {
                    final(self).active_era == Some(
                        ActiveEraInfo { index: next as u32, start: None },
                    )
                } else {
                    final(self).active_era == old(self).active_era
                }
            }),
            final(self).spec_active_era_num() >= old(self).spec_active_era_num(),
            Module::same_but_era(*old(self), *final(self)),
            final(self).current_era == old(self).current_era,
            final(self).eras_start_session_index@ == old(self).eras_start_session_index@,
            final(self).force_era == old(self).force_era,
            final(self).is_current_session_final == old(self).is_current_session_final,
            final(self).last_timestamp == old(self).last_timestamp,
    {
        let next_active_era: u32 = match self.active_era {
            Some(a) => a.index + 1,
            None => 0,
        };
        if (next_active_era as usize) < self.eras_start_session_index.len() {
            let next_active_era_start_session_index: SessionIndex =
                self.eras_start_session_index[next_active_era as usize];
            if next_active_era_start_session_index == start_session_index {
                self.start_era(start_session_index);
            } else if next_active_era_start_session_index < start_session_index {
                // A session appears to have been skipped: better to start
                // the era late than to stall.
                self.start_era(start_session_index);
            }
        }
    }

    /// Ends a session, potentially ending an era: when the next era is
    /// recorded to start right after this session, the active era's
    /// bookkeeping is finalized.
    pub fn end_session(&mut self, session_index: SessionIndex)
        requires
            session_index < u32::MAX,
            old(self).active_era matches Some(a) ==> a.index < u32::MAX,
        ensures
            *final(self) == *old(self),
    {
        let active_era_info: ActiveEraInfo = match self.active_era {
            Some(a) => a,
            None => {
                return ;
            },
        };
        let next: u32 = active_era_info.index + 1;
        if (next as usize) < self.eras_start_session_index.len() {
            if self.eras_start_session_index[next as usize] == session_index + 1 {
                self.end_era(active_era_info, session_index);
            }
        }
    }

    /// Makes the next era active: increments the active era's index (or
    /// activates the initial era) and clears its cached start time, to be
    /// fixated by a later timestamp.
    pub fn start_era(&mut self, _start_session: SessionIndex)
        requires
            old(self).active_era matches Some(a) ==> a.index < u32::MAX,
        ensures
            final(self).active_era == Some(
                ActiveEraInfo {
                    index: (old(self).spec_active_era_num() + 1) as u32,
                    start: None,
                },
            ),
            final(self).spec_active_era_num() == old(self).spec_active_era_num() + 1,
            Module::same_but_era(*old(self), *final(self)),
            final(self).current_era == old(self).current_era,
            final(self).eras_start_session_index@ == old(self).eras_start_session_index@,
            final(self).force_era == old(self).force_era,
            final(self).is_current_session_final == old(self).is_current_session_final,
            final(self).last_timestamp == old(self).last_timestamp,
    {
        let new_index: u32 = match self.active_era {
            Some(info) => info.index + 1,
            None => 0,
        };
        self.active_era = Some(ActiveEraInfo { index: new_index, start: None });
    }

    /// Computes the payout for an ended era: an extension point of the
    /// base design that deliberately changes nothing yet.
    pub fn end_era(&mut self, _active_era: ActiveEraInfo, _session_index: SessionIndex)
        ensures
            *final(self) == *old(self),
    {
    }
}

} // verus!
