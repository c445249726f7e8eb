use std::collections::HashMap;

use vstd::prelude::*;

use crate::types::AccountId;
use crate::types::ActiveEraInfo;
use crate::types::Balance;
use crate::types::BlockNumber;
use crate::types::Delta;
use crate::types::EraIndex;
use crate::types::Event;
use crate::types::Forcing;
use crate::types::Nomination;
use crate::types::NominatorLedger;
use crate::types::SessionIndex;
use crate::types::SlashFraction;
use crate::types::Validator;
use crate::types::ValidatorLedger;
use crate::types::WeightType;

verus! {

/// Some record of the sequence has this account.
pub open spec fn seq_has_validator(s: Seq<Validator>, who: AccountId) -> bool {
    exists|i: int| 0 <= i < s.len() && #[trigger] s[i].who == who
}

/// The index of the record with this account; well defined when the
/// accounts of the sequence are unique.
pub open spec fn seq_validator_index(s: Seq<Validator>, who: AccountId) -> int {
    choose|i: int| 0 <= i < s.len() && #[trigger] s[i].who == who
}

/// The accounts of the sequence are pairwise distinct.
pub open spec fn seq_validator_ids_unique(s: Seq<Validator>) -> bool {
    forall|i: int, j: int|
        0 <= i < j < s.len() ==> #[trigger] s[i].who != #[trigger] s[j].who
}

/// Under unique accounts, an index holding the account is the one the
/// specification names.
pub proof fn lemma_seq_validator_index_unique(s: Seq<Validator>, who: AccountId, i: int)
    requires
        seq_validator_ids_unique(s),
        0 <= i < s.len(),
        s[i].who == who,
    ensures
        seq_has_validator(s, who),
        seq_validator_index(s, who) == i,
{
    assert(seq_has_validator(s, who));
    let j = seq_validator_index(s, who);
    if i < j {
        assert(s[i].who != s[j].who);
    } else if j < i {
        assert(s[j].who != s[i].who);
    }
}

/// The staking engine: one explicit state object per chain instance,
/// passed by reference to every operation.  It owns the weight ledgers,
/// the pending-offenders buffer, the era record and the modelled balance
/// ledger of the external asset collaborator.
pub struct Module {
    /// Free balance of every account the engine touches, including the
    /// per-validator reward pots, the treasury and the team account.
    pub balances: HashMap<AccountId, Balance>,
    /// Registered validators in registration order, never deleted.
    pub validators: Vec<Validator>,
    /// One record per backer-validator pair that ever nominated.
    pub nominations: Vec<Nomination>,
    /// Offenders reported during the current session, in insertion order,
    /// keyed by offender; drained exactly once at session end.
    pub offenders_in_session: Vec<(AccountId, SlashFraction)>,
    /// Latest planned era, incremented when a new era is planned.
    pub current_era: Option<EraIndex>,
    /// The era currently active, trailing `current_era` by at most one.
    pub active_era: Option<ActiveEraInfo>,
    /// Start session of each planned era, indexed by era index.
    pub eras_start_session_index: Vec<SessionIndex>,
    /// Whether the era-length policy is currently overridden.
    pub force_era: Forcing,
    /// Set when the running session is the last one of the current era.
    pub is_current_session_final: bool,
    /// Emitted notifications, in order.
    pub events: Vec<Event>,
    /// Account credited by slashing.
    pub treasury_account: AccountId,
    /// Account credited by the first-round team cut.
    pub team_account: AccountId,
    /// Active validators are not force-chilled below this count.
    pub minimum_validator_count: u64,
    /// Ideal number of sessions per era.
    pub sessions_per_era: SessionIndex,
    /// Number of blocks in one session, used by per-block slash amounts.
    pub session_duration: u64,
    /// Reward of a session in the first round, halved every round.
    pub initial_reward: Balance,
    /// Smallest admissible block period, doubled to get the slot duration.
    pub minimum_period: u64,
    /// Timestamp of the block seen last, zero before any block.
    pub last_timestamp: u64,
}

impl Module {
    /// Balance of an account in the modelled ledger; absent accounts hold
    /// zero.
    pub open spec fn spec_balance_of(self, who: AccountId) -> Balance {
        if self.balances@.contains_key(who) {
            self.balances@[who]
        } else {
            0
        }
    }

    /// Some registered validator has this account.
    pub open spec fn spec_has_validator(self, who: AccountId) -> bool {
        seq_has_validator(self.validators@, who)
    }

    /// The index of the validator registered under `who`; well defined
    /// whenever `wf()` holds, since registration keeps accounts unique.
    pub open spec fn spec_validator_index(self, who: AccountId) -> int {
        seq_validator_index(self.validators@, who)
    }

    /// The record of the validator registered under `who`; a zeroed,
    /// inactive record if no such validator exists.
    pub open spec fn spec_validator_of(self, who: AccountId) -> Validator {
        if self.spec_has_validator(who) {
            self.validators@[self.spec_validator_index(who)]
        } else {
            Validator {
                who,
                reward_pot: who,
                registered_at: 0,
                is_active: false,
                missed_count: 0,
                ledger: ValidatorLedger {
                    total: 0,
                    last_total_vote_weight: 0,
                    last_total_vote_weight_update: 0,
                },
            }
        }
    }

    /// The reward-pot account of the validator registered under `who`.
    pub open spec fn spec_reward_pot_of(self, who: AccountId) -> AccountId {
        self.spec_validator_of(who).reward_pot
    }

    /// `who` is the reward pot of some validator.
    pub open spec fn spec_is_reward_pot(self, who: AccountId) -> bool {
        exists|i: int|
            0 <= i < self.validators@.len() && #[trigger] self.validators@[i].reward_pot == who
    }

    /// Some nomination record exists for the pair.
    pub open spec fn spec_has_nomination(self, nominator: AccountId, validator: AccountId) -> bool {
        exists|i: int|
            0 <= i < self.nominations@.len() && (#[trigger] self.nominations@[i]).nominator
                == nominator && self.nominations@[i].validator == validator
    }

    /// The index of the pair's nomination record; well defined under `wf()`.
    pub open spec fn spec_nomination_index(self, nominator: AccountId, validator: AccountId) -> int {
        choose|i: int|
            0 <= i < self.nominations@.len() && (#[trigger] self.nominations@[i]).nominator
                == nominator && self.nominations@[i].validator == validator
    }

    /// The ledger of the pair, or an empty one if the pair never nominated.
    pub open spec fn spec_nomination_ledger_of(
        self,
        nominator: AccountId,
        validator: AccountId,
    ) -> NominatorLedger {
        if self.spec_has_nomination(nominator, validator) {
            self.nominations@[self.spec_nomination_index(nominator, validator)].ledger
        } else {
            NominatorLedger { nomination: 0, last_vote_weight: 0, last_vote_weight_update: 0 }
        }
    }

    /// Validator accounts are unique; reward pots are unique, are nobody's
    /// own account and differ from the treasury and team accounts.
    pub open spec fn validators_unique(self) -> bool {
        &&& seq_validator_ids_unique(self.validators@)
        &&& forall|i: int, j: int|
            0 <= i < j < self.validators@.len() ==> #[trigger] self.validators@[i].reward_pot
                != #[trigger] self.validators@[j].reward_pot
        &&& forall|i: int, j: int|
            0 <= i < self.validators@.len() && 0 <= j < self.validators@.len()
                ==> #[trigger] self.validators@[i].reward_pot != #[trigger] self.validators@[j].who
        &&& forall|i: int|
            0 <= i < self.validators@.len() ==> #[trigger] self.validators@[i].reward_pot
                != self.treasury_account && self.validators@[i].reward_pot != self.team_account
    }

    /// At most one nomination record exists per backer-validator pair.
    pub open spec fn nominations_unique(self) -> bool {
        forall|i: int, j: int|
            0 <= i < j < self.nominations@.len() ==> !((#[trigger] self.nominations@[i]).nominator
                == (#[trigger] self.nominations@[j]).nominator && self.nominations@[i].validator
                == self.nominations@[j].validator)
    }

    /// Every buffered offender is a registered validator.
    pub open spec fn offenders_wf(self) -> bool {
        forall|i: int|
            0 <= i < self.offenders_in_session@.len() ==> seq_has_validator(
                self.validators@,
                (#[trigger] self.offenders_in_session@[i]).0,
            )
    }

    /// The pending-offenders buffer holds at most one entry per offender.
    pub open spec fn offenders_unique(self) -> bool {
        forall|i: int, j: int|
            0 <= i < j < self.offenders_in_session@.len() ==> (
            #[trigger] self.offenders_in_session@[i]).0 != (
            #[trigger] self.offenders_in_session@[j]).0
    }

    /// Well-formedness of the engine state: unique validator and pot
    /// accounts, unique nomination pairs, a buffer of registered offenders
    /// keyed by offender, and a session of at least one block.
    pub open spec fn wf(self) -> bool {
        &&& self.validators_unique()
        &&& self.nominations_unique()
        &&& self.offenders_wf()
        &&& self.offenders_unique()
        &&& self.session_duration >= 1
    }

    /// The configuration fields are the same in both states.
    pub open spec fn same_config(pre: Module, post: Module) -> bool {
        &&& post.treasury_account == pre.treasury_account
        &&& post.team_account == pre.team_account
        &&& post.minimum_validator_count == pre.minimum_validator_count
        &&& post.sessions_per_era == pre.sessions_per_era
        &&& post.session_duration == pre.session_duration
        &&& post.initial_reward == pre.initial_reward
        &&& post.minimum_period == pre.minimum_period
    }

    /// The era bookkeeping is the same in both states.
    pub open spec fn same_era_state(pre: Module, post: Module) -> bool {
        &&& post.current_era == pre.current_era
        &&& post.active_era == pre.active_era
        &&& post.eras_start_session_index@ == pre.eras_start_session_index@
        &&& post.force_era == pre.force_era
        &&& post.is_current_session_final == pre.is_current_session_final
        &&& post.last_timestamp == pre.last_timestamp
    }

    /// The weight ledgers are the same in both states.
    pub open spec fn same_stake_state(pre: Module, post: Module) -> bool {
        &&& post.validators@ == pre.validators@
        &&& post.nominations@ == pre.nominations@
    }

    /// The pending-offenders buffer is the same in both states.
    pub open spec fn same_offenders(pre: Module, post: Module) -> bool {
        post.offenders_in_session@ == pre.offenders_in_session@
    }

    /// The event trace is the same in both states.
    pub open spec fn same_events(pre: Module, post: Module) -> bool {
        post.events@ == pre.events@
    }

    /// The modelled balance ledger is the same in both states.
    pub open spec fn same_balances(pre: Module, post: Module) -> bool {
        post.balances@ == pre.balances@
    }

    /// Constructs an engine with no validators, no balances and no era.
    pub fn new(
        treasury_account: AccountId,
        team_account: AccountId,
        minimum_validator_count: u64,
        sessions_per_era: SessionIndex,
        session_duration: u64,
        initial_reward: Balance,
        minimum_period: u64,
    ) -> (m: Module)
        requires
            session_duration >= 1,
        ensures
            m.wf(),
            m.balances@ == Map::<AccountId, Balance>::empty(),
            m.validators@.len() == 0,
            m.nominations@.len() == 0,
            m.offenders_in_session@.len() == 0,
            m.current_era == Option::<EraIndex>::None,
            m.active_era == Option::<ActiveEraInfo>::None,
            m.eras_start_session_index@.len() == 0,
            m.force_era == Forcing::NotForcing,
            m.is_current_session_final == false,
            m.events@.len() == 0,
            m.treasury_account == treasury_account,
            m.team_account == team_account,
            m.minimum_validator_count == minimum_validator_count,
            m.sessions_per_era == sessions_per_era,
            m.session_duration == session_duration,
            m.initial_reward == initial_reward,
            m.minimum_period == minimum_period,
            m.last_timestamp == 0,
    {
        Module {
            balances: HashMap::new(),
            validators: Vec::new(),
            nominations: Vec::new(),
            offenders_in_session: Vec::new(),
            current_era: None,
            active_era: None,
            eras_start_session_index: Vec::new(),
            force_era: Forcing::NotForcing,
            is_current_session_final: false,
            events: Vec::new(),
            treasury_account,
            team_account,
            minimum_validator_count,
            sessions_per_era,
            session_duration,
            initial_reward,
            minimum_period,
            last_timestamp: 0,
        }
    }

    /// Registers a validator with a fresh account and a fresh reward pot.
    /// The record starts active, with nothing staked and no weight.
    pub fn register_validator(
        &mut self,
        who: AccountId,
        reward_pot: AccountId,
        registered_at: BlockNumber,
    )
        requires
            old(self).wf(),
            !old(self).spec_has_validator(who),
            !old(self).spec_is_reward_pot(who),
            !old(self).spec_has_validator(reward_pot),
            !old(self).spec_is_reward_pot(reward_pot),
            reward_pot != who,
            reward_pot != old(self).treasury_account,
            reward_pot != old(self).team_account,
        ensures
            final(self).wf(),
            final(self).validators@ == old(self).validators@.push(
                Validator {
                    who,
                    reward_pot,
                    registered_at,
                    is_active: true,
                    missed_count: 0,
                    ledger: ValidatorLedger {
                        total: 0,
                        last_total_vote_weight: 0,
                        last_total_vote_weight_update: registered_at,
                    },
                },
            ),
            Module::same_config(*old(self), *final(self)),
            Module::same_era_state(*old(self), *final(self)),
            Module::same_balances(*old(self), *final(self)),
            Module::same_events(*old(self), *final(self)),
            Module::same_offenders(*old(self), *final(self)),
            final(self).nominations@ == old(self).nominations@,
    {
        let ghost pre = *self;
        self.validators.push(
            Validator {
                who,
                reward_pot,
                registered_at,
                is_active: true,
                missed_count: 0,
                ledger: ValidatorLedger {
                    total: 0,
                    last_total_vote_weight: 0,
                    last_total_vote_weight_update: registered_at,
                },
            },
        );
        proof {
            let post = *self;
            assert forall|i: int| 0 <= i < post.offenders_in_session@.len() implies
                seq_has_validator(post.validators@, (#[trigger] post.offenders_in_session@[i]).0)
            by {
                let k = post.offenders_in_session@[i].0;
                assert(seq_has_validator(pre.validators@, k));
                let j = choose|j: int| 0 <= j < pre.validators@.len() && #[trigger] pre.validators@[j].who == k;
                assert(post.validators@[j].who == k);
            }
        }
    }

    /// Finds the index of the validator registered under `who`.
    pub fn find_validator(&self, who: AccountId) -> (r: Option<usize>)
        ensures
            match r {
                Some(i) => i < self.validators@.len() && self.validators@[i as int].who == who
                    && forall|j: int| 0 <= j < i ==> #[trigger] self.validators@[j].who != who,
                None => !self.spec_has_validator(who),
            },
    {
        let n: usize = self.validators.len();
        let mut i: usize = 0;
        while i < n
            invariant
                n == self.validators@.len(),
                i <= n,
                forall|j: int| 0 <= j < i ==> #[trigger] self.validators@[j].who != who,
            decreases n - i,
        {
            if self.validators[i].who == who {
                return Some(i);
            }
            i = i + 1;
        }
        None
    }

    /// Finds the index of the nomination record of the pair.
    pub fn find_nomination(&self, nominator: AccountId, validator: AccountId) -> (r: Option<usize>)
        ensures
            match r {
                Some(i) => i < self.nominations@.len() && self.nominations@[i as int].nominator
                    == nominator && self.nominations@[i as int].validator == validator && forall|
                    j: int,
                |
                    0 <= j < i ==> !((#[trigger] self.nominations@[j]).nominator == nominator
                        && self.nominations@[j].validator == validator),
                None => !self.spec_has_nomination(nominator, validator),
            },
    {
        let n: usize = self.nominations.len();
        let mut i: usize = 0;
        while i < n
            invariant
                n == self.nominations@.len(),
                i <= n,
                forall|j: int|
                    0 <= j < i ==> !((#[trigger] self.nominations@[j]).nominator == nominator
                        && self.nominations@[j].validator == validator),
            decreases n - i,
        {
            if self.nominations[i].nominator == nominator && self.nominations[i].validator
                == validator {
                return Some(i);
            }
            i = i + 1;
        }
        None
    }

    /// Under `wf()`, a found index is the one the specification names.
    pub proof fn lemma_validator_index_unique(self, who: AccountId, i: int)
        requires
            self.validators_unique(),
            0 <= i < self.validators@.len(),
            self.validators@[i].who == who,
        ensures
            self.spec_has_validator(who),
            self.spec_validator_index(who) == i,
            self.spec_validator_of(who) == self.validators@[i],
    {
        lemma_seq_validator_index_unique(self.validators@, who, i);
    }

    /// Under `wf()`, a found nomination index is the one the specification
    /// names.
    pub proof fn lemma_nomination_index_unique(
        self,
        nominator: AccountId,
        validator: AccountId,
        i: int,
    )
        requires
            self.nominations_unique(),
            0 <= i < self.nominations@.len(),
            self.nominations@[i].nominator == nominator,
            self.nominations@[i].validator == validator,
        ensures
            self.spec_has_nomination(nominator, validator),
            self.spec_nomination_index(nominator, validator) == i,
            self.spec_nomination_ledger_of(nominator, validator) == self.nominations@[i].ledger,
    {
        assert(self.spec_has_nomination(nominator, validator));
        let j = self.spec_nomination_index(nominator, validator);
        if i < j {
            assert(!(self.nominations@[i].nominator == self.nominations@[j].nominator
                && self.nominations@[i].validator == self.nominations@[j].validator));
        } else if j < i {
            assert(!(self.nominations@[j].nominator == self.nominations@[i].nominator
                && self.nominations@[j].validator == self.nominations@[i].validator));
        }
    }

    /// Two states with the same nomination records agree on every pair's
    /// ledger.
    pub proof fn lemma_nomination_views_equal(a: Module, b: Module)
        requires
            a.nominations@ == b.nominations@,
            a.nominations_unique(),
        ensures
            b.nominations_unique(),
            forall|n: AccountId, v: AccountId|
                #[trigger] b.spec_has_nomination(n, v) == a.spec_has_nomination(n, v),
            forall|n: AccountId, v: AccountId|
                #[trigger] b.spec_nomination_ledger_of(n, v) == a.spec_nomination_ledger_of(n, v),
    {
        assert forall|i: int, j: int| 0 <= i < j < b.nominations@.len() implies !((
        #[trigger] b.nominations@[i]).nominator == (#[trigger] b.nominations@[j]).nominator
            && b.nominations@[i].validator == b.nominations@[j].validator) by {
            assert(b.nominations@[i] == a.nominations@[i]);
            assert(b.nominations@[j] == a.nominations@[j]);
        }
        assert forall|n: AccountId, v: AccountId| #[trigger] b.spec_has_nomination(n, v)
            == a.spec_has_nomination(n, v) by {
            if a.spec_has_nomination(n, v) {
                let i = a.spec_nomination_index(n, v);
                assert(b.nominations@[i] == a.nominations@[i]);
                assert(b.spec_has_nomination(n, v));
            }
            if b.spec_has_nomination(n, v) {
                let i = b.spec_nomination_index(n, v);
                assert(a.nominations@[i] == b.nominations@[i]);
                assert(a.spec_has_nomination(n, v));
            }
        }
        assert forall|n: AccountId, v: AccountId| #[trigger] b.spec_nomination_ledger_of(n, v)
            == a.spec_nomination_ledger_of(n, v) by {
            if a.spec_has_nomination(n, v) {
                let i = a.spec_nomination_index(n, v);
                assert(b.nominations@[i] == a.nominations@[i]);
                a.lemma_nomination_index_unique(n, v, i);
                b.lemma_nomination_index_unique(n, v, i);
            }
        }
    }

    /// The unbounded value of a delta applied to an amount.
    pub open spec fn spec_apply_delta(origin: Balance, delta: Delta) -> int {
        match delta {
            Delta::Add(v) => origin + v,
            Delta::Sub(v) => origin - v,
            Delta::Zero => origin as int,
        }
    }

    /// The delta keeps the amount within the balance range.
    pub open spec fn spec_delta_fits(origin: Balance, delta: Delta) -> bool {
        0 <= Module::spec_apply_delta(origin, delta) <= Balance::MAX
    }

    /// Calculates the new amount given the origin amount and delta.
    pub fn apply_delta(origin: Balance, delta: Delta) -> (r: Balance)
        requires
            Module::spec_delta_fits(origin, delta),
        ensures
            r == Module::spec_apply_delta(origin, delta),
    {
        match delta {
            Delta::Add(v) => origin + v,
            Delta::Sub(v) => origin - v,
            Delta::Zero => origin,
        }
    }

    /// Replaces the record at index `i` with one that keeps the same
    /// account and reward pot; every other validator's record is untouched.
    pub(crate) fn update_validator_at(&mut self, i: usize, v: Validator)
        requires
            old(self).wf(),
            i < old(self).validators@.len(),
            v.who == old(self).validators@[i as int].who,
            v.reward_pot == old(self).validators@[i as int].reward_pot,
        ensures
            final(self).wf(),
            final(self).validators@ == old(self).validators@.update(i as int, v),
            final(self).spec_validator_index(v.who) == old(self).spec_validator_index(v.who)
                || !old(self).spec_has_validator(v.who),
            old(self).spec_validator_index(v.who) == i ==> final(self).spec_validator_of(v.who)
                == v,
            forall|w: AccountId|
                #[trigger] final(self).spec_has_validator(w) == old(self).spec_has_validator(w),
            forall|w: AccountId|
                w != v.who ==> #[trigger] final(self).spec_validator_of(w)
                    == old(self).spec_validator_of(w),
            forall|a: AccountId|
                #[trigger] final(self).spec_is_reward_pot(a) == old(self).spec_is_reward_pot(a),
            Module::same_config(*old(self), *final(self)),
            Module::same_era_state(*old(self), *final(self)),
            Module::same_balances(*old(self), *final(self)),
            Module::same_events(*old(self), *final(self)),
            Module::same_offenders(*old(self), *final(self)),
            final(self).nominations@ == old(self).nominations@,
    {
        let ghost pre = *self;
        self.validators[i] = v;
        proof {
            let post = *self;
            assert forall|a: int, b: int| 0 <= a < b < post.validators@.len() implies
                #[trigger] post.validators@[a].who != #[trigger] post.validators@[b].who by {
                assert(post.validators@[a].who == pre.validators@[a].who);
                assert(post.validators@[b].who == pre.validators@[b].who);
            }
            assert forall|a: int, b: int| 0 <= a < b < post.validators@.len() implies
                #[trigger] post.validators@[a].reward_pot
                != #[trigger] post.validators@[b].reward_pot by {
                assert(post.validators@[a].reward_pot == pre.validators@[a].reward_pot);
                assert(post.validators@[b].reward_pot == pre.validators@[b].reward_pot);
            }
            assert forall|a: int, b: int|
                0 <= a < post.validators@.len() && 0 <= b < post.validators@.len() implies
                #[trigger] post.validators@[a].reward_pot != #[trigger] post.validators@[b].who by {
                assert(post.validators@[a].reward_pot == pre.validators@[a].reward_pot);
                assert(post.validators@[b].who == pre.validators@[b].who);
            }
            assert forall|a: int| 0 <= a < post.validators@.len() implies
                #[trigger] post.validators@[a].reward_pot != post.treasury_account
                && post.validators@[a].reward_pot != post.team_account by {
                assert(post.validators@[a].reward_pot == pre.validators@[a].reward_pot);
            }
            assert forall|w: AccountId| #[trigger] post.spec_has_validator(w) == pre.spec_has_validator(
                w,
            ) by {
                if pre.spec_has_validator(w) {
                    let j = pre.spec_validator_index(w);
                    assert(post.validators@[j].who == pre.validators@[j].who);
                    assert(post.spec_has_validator(w));
                }
                if post.spec_has_validator(w) {
                    let j = post.spec_validator_index(w);
                    assert(pre.validators@[j].who == post.validators@[j].who);
                    assert(pre.spec_has_validator(w));
                }
            }
            assert forall|a: AccountId| #[trigger] post.spec_is_reward_pot(a)
                == pre.spec_is_reward_pot(a) by {
                if pre.spec_is_reward_pot(a) {
                    let j = choose|j: int|
                        0 <= j < pre.validators@.len() && #[trigger] pre.validators@[j].reward_pot
                            == a;
                    assert(post.validators@[j].reward_pot == a);
                }
                if post.spec_is_reward_pot(a) {
                    let j = choose|j: int|
                        0 <= j < post.validators@.len() && #[trigger] post.validators@[j].reward_pot
                            == a;
                    assert(pre.validators@[j].reward_pot == a);
                }
            }
            assert forall|w: AccountId| w != v.who implies #[trigger] post.spec_validator_of(w)
                == pre.spec_validator_of(w) by {
                if pre.spec_has_validator(w) {
                    let j = pre.spec_validator_index(w);
                    assert(pre.validators@[j].who == w);
                    assert(j != i);
                    assert(post.validators@[j] == pre.validators@[j]);
                    post.lemma_validator_index_unique(w, j);
                }
            }
            if pre.spec_has_validator(v.who) {
                let j = pre.spec_validator_index(v.who);
                if j == i {
                    post.lemma_validator_index_unique(v.who, i as int);
                } else {
                    assert(post.validators@[j] == pre.validators@[j]);
                    post.lemma_validator_index_unique(v.who, j);
                }
            }
            assert forall|k: int| 0 <= k < post.offenders_in_session@.len() implies
                seq_has_validator(post.validators@, (#[trigger] post.offenders_in_session@[k]).0)
            by {
                let w = post.offenders_in_session@[k].0;
                assert(seq_has_validator(pre.validators@, w));
                assert(post.spec_has_validator(w) == pre.spec_has_validator(w));
            }
        }
    }

    /// Actually updates the validator's vote weight given the new weight,
    /// the time of settlement and an amount delta.
    pub fn set_validator_vote_weight(
        &mut self,
        validator: AccountId,
        new_weight: WeightType,
        current_block: BlockNumber,
        delta: Delta,
    )
        requires
            old(self).wf(),
            old(self).spec_has_validator(validator),
            Module::spec_delta_fits(old(self).spec_validator_of(validator).ledger.total, delta),
        ensures
            final(self).wf(),
            final(self).spec_validator_of(validator) == (Validator {
                ledger: ValidatorLedger {
                    total: Module::spec_apply_delta(
                        old(self).spec_validator_of(validator).ledger.total,
                        delta,
                    ) as Balance,
                    last_total_vote_weight: new_weight,
                    last_total_vote_weight_update: current_block,
                },
                ..old(self).spec_validator_of(validator)
            }),
            final(self).validators@.len() == old(self).validators@.len(),
            forall|w: AccountId|
                #[trigger] final(self).spec_has_validator(w) == old(self).spec_has_validator(w),
            forall|w: AccountId|
                w != validator ==> #[trigger] final(self).spec_validator_of(w)
                    == old(self).spec_validator_of(w),
            forall|a: AccountId|
                #[trigger] final(self).spec_is_reward_pot(a) == old(self).spec_is_reward_pot(a),
            Module::same_config(*old(self), *final(self)),
            Module::same_era_state(*old(self), *final(self)),
            Module::same_balances(*old(self), *final(self)),
            Module::same_events(*old(self), *final(self)),
            Module::same_offenders(*old(self), *final(self)),
            final(self).nominations@ == old(self).nominations@,
    {
        let ghost pre = *self;
        match self.find_validator(validator) {
            Some(i) => {
                proof {
                    pre.lemma_validator_index_unique(validator, i as int);
                }
                let old_record: Validator = self.validators[i];
                let updated = Validator {
                    ledger: ValidatorLedger {
                        total: Module::apply_delta(old_record.ledger.total, delta),
                        last_total_vote_weight: new_weight,
                        last_total_vote_weight_update: current_block,
                    },
                    ..old_record
                };
                self.update_validator_at(i, updated);
            },
            None => {
                proof {
                    assert(false);
                }
            },
        }
    }

    /// Removes the validator from the active set after an under-covered
    /// slash; its record stays, zeroed of activity.
    pub fn apply_force_chilled(&mut self, who: AccountId)
        requires
            old(self).wf(),
            old(self).spec_has_validator(who),
        ensures
            final(self).wf(),
            final(self).spec_validator_of(who) == (Validator {
                is_active: false,
                ..old(self).spec_validator_of(who)
            }),
            final(self).validators@ == old(self).validators@.update(
                old(self).spec_validator_index(who),
                Validator { is_active: false, ..old(self).spec_validator_of(who) },
            ),
            final(self).validators@.len() == old(self).validators@.len(),
            forall|w: AccountId|
                #[trigger] final(self).spec_has_validator(w) == old(self).spec_has_validator(w),
            forall|w: AccountId|
                w != who ==> #[trigger] final(self).spec_validator_of(w)
                    == old(self).spec_validator_of(w),
            forall|a: AccountId|
                #[trigger] final(self).spec_is_reward_pot(a) == old(self).spec_is_reward_pot(a),
            Module::same_config(*old(self), *final(self)),
            Module::same_era_state(*old(self), *final(self)),
            Module::same_balances(*old(self), *final(self)),
            Module::same_events(*old(self), *final(self)),
            Module::same_offenders(*old(self), *final(self)),
            final(self).nominations@ == old(self).nominations@,
    {
        let ghost pre = *self;
        match self.find_validator(who) {
            Some(i) => {
                proof {
                    pre.lemma_validator_index_unique(who, i as int);
                }
                let old_record: Validator = self.validators[i];
                let updated = Validator { is_active: false, ..old_record };
                self.update_validator_at(i, updated);
            },
            None => {
                proof {
                    assert(false);
                }
            },
        }
    }

    /// Updates the pair's nomination record with a settled weight, a new
    /// update time and an amount delta, creating the record on first use.
    pub fn set_nominator_vote_weight(
        &mut self,
        nominator: AccountId,
        validator: AccountId,
        new_weight: WeightType,
        current_block: BlockNumber,
        delta: Delta,
    )
        requires
            old(self).wf(),
            Module::spec_delta_fits(
                old(self).spec_nomination_ledger_of(nominator, validator).nomination,
                delta,
            ),
        ensures
            final(self).wf(),
            final(self).spec_has_nomination(nominator, validator),
            final(self).spec_nomination_ledger_of(nominator, validator) == (NominatorLedger {
                nomination: Module::spec_apply_delta(
                    old(self).spec_nomination_ledger_of(nominator, validator).nomination,
                    delta,
                ) as Balance,
                last_vote_weight: new_weight,
                last_vote_weight_update: current_block,
            }),
            // every other pair's record is untouched
            forall|n2: AccountId, v2: AccountId|
                !(n2 == nominator && v2 == validator)
                    ==> #[trigger] final(self).spec_nomination_ledger_of(n2, v2)
                    == old(self).spec_nomination_ledger_of(n2, v2),
            final(self).validators@ == old(self).validators@,
            Module::same_config(*old(self), *final(self)),
            Module::same_era_state(*old(self), *final(self)),
            Module::same_balances(*old(self), *final(self)),
            Module::same_events(*old(self), *final(self)),
            Module::same_offenders(*old(self), *final(self)),
    {
        let ghost pre = *self;
        match self.find_nomination(nominator, validator) {
            Some(i) => {
                proof {
                    pre.lemma_nomination_index_unique(nominator, validator, i as int);
                }
                let origin: Balance = self.nominations[i].ledger.nomination;
                self.nominations[i] = Nomination {
                    nominator,
                    validator,
                    ledger: NominatorLedger {
                        nomination: Module::apply_delta(origin, delta),
                        last_vote_weight: new_weight,
                        last_vote_weight_update: current_block,
                    },
                };
                proof {
                    Module::lemma_nomination_update_frame(pre, *self, nominator, validator, i as int);
                }
            },
            None => {
                self.nominations.push(
                    Nomination {
                        nominator,
                        validator,
                        ledger: NominatorLedger {
                            nomination: Module::apply_delta(0, delta),
                            last_vote_weight: new_weight,
                            last_vote_weight_update: current_block,
                        },
                    },
                );
                proof {
                    Module::lemma_nomination_push_frame(pre, *self, nominator, validator);
                }
            },
        }
    }

    /// Replacing the record at the pair's own index leaves every other
    /// pair's ledger as it was.
    proof fn lemma_nomination_update_frame(
        pre: Module,
        post: Module,
        nominator: AccountId,
        validator: AccountId,
        i: int,
    )
        requires
            pre.nominations_unique(),
            0 <= i < pre.nominations@.len(),
            pre.nominations@[i].nominator == nominator,
            pre.nominations@[i].validator == validator,
            post.nominations@ == pre.nominations@.update(
                i,
                Nomination { nominator, validator, ledger: post.nominations@[i].ledger },
            ),
        ensures
            post.nominations_unique(),
            post.spec_has_nomination(nominator, validator),
            post.spec_nomination_ledger_of(nominator, validator) == post.nominations@[i].ledger,
            forall|n2: AccountId, v2: AccountId|
                !(n2 == nominator && v2 == validator) ==> #[trigger] post.spec_nomination_ledger_of(
                    n2,
                    v2,
                ) == pre.spec_nomination_ledger_of(n2, v2),
    {
        assert forall|a: int, b: int| 0 <= a < b < post.nominations@.len() implies !((
        #[trigger] post.nominations@[a]).nominator == (#[trigger] post.nominations@[b]).nominator
            && post.nominations@[a].validator == post.nominations@[b].validator) by {
            assert(pre.nominations@[a].nominator == post.nominations@[a].nominator
                && pre.nominations@[a].validator == post.nominations@[a].validator);
            assert(pre.nominations@[b].nominator == post.nominations@[b].nominator
                && pre.nominations@[b].validator == post.nominations@[b].validator);
        }
        post.lemma_nomination_index_unique(nominator, validator, i);
        assert forall|n2: AccountId, v2: AccountId| !(n2 == nominator && v2 == validator) implies
            #[trigger] post.spec_nomination_ledger_of(n2, v2) == pre.spec_nomination_ledger_of(
            n2,
            v2,
        ) by {
            if pre.spec_has_nomination(n2, v2) {
                let j = pre.spec_nomination_index(n2, v2);
                assert(post.nominations@[j].nominator == n2 && post.nominations@[j].validator
                    == v2);
                post.lemma_nomination_index_unique(n2, v2, j);
            } else {
                assert forall|k: int| 0 <= k < post.nominations@.len() implies !((
                #[trigger] post.nominations@[k]).nominator == n2 && post.nominations@[k].validator
                    == v2) by {
                    if k != i {
                        assert(post.nominations@[k] == pre.nominations@[k]);
                        assert(!(pre.nominations@[k].nominator == n2
                            && pre.nominations@[k].validator == v2));
                    }
                }
            }
        }
    }

    /// Appending a record for a pair that had none leaves every other
    /// pair's ledger as it was.
    proof fn lemma_nomination_push_frame(
        pre: Module,
        post: Module,
        nominator: AccountId,
        validator: AccountId,
    )
        requires
            pre.nominations_unique(),
            !pre.spec_has_nomination(nominator, validator),
            post.nominations@.len() == pre.nominations@.len() + 1,
            post.nominations@ == pre.nominations@.push(
                post.nominations@[pre.nominations@.len() as int],
            ),
            post.nominations@[pre.nominations@.len() as int].nominator == nominator,
            post.nominations@[pre.nominations@.len() as int].validator == validator,
        ensures
            post.nominations_unique(),
            post.spec_has_nomination(nominator, validator),
            post.spec_nomination_ledger_of(nominator, validator) == post.nominations@[pre.nominations@.len() as int].ledger,
            forall|n2: AccountId, v2: AccountId|
                !(n2 == nominator && v2 == validator) ==> #[trigger] post.spec_nomination_ledger_of(
                    n2,
                    v2,
                ) == pre.spec_nomination_ledger_of(n2, v2),
    {
        let last = pre.nominations@.len() as int;
        assert forall|a: int, b: int| 0 <= a < b < post.nominations@.len() implies !((
        #[trigger] post.nominations@[a]).nominator == (#[trigger] post.nominations@[b]).nominator
            && post.nominations@[a].validator == post.nominations@[b].validator) by {
            if b < last {
                assert(post.nominations@[a] == pre.nominations@[a]);
                assert(post.nominations@[b] == pre.nominations@[b]);
            } else {
                assert(post.nominations@[a] == pre.nominations@[a]);
                assert(!(pre.nominations@[a].nominator == nominator
                    && pre.nominations@[a].validator == validator));
            }
        }
        post.lemma_nomination_index_unique(nominator, validator, last);
        assert forall|n2: AccountId, v2: AccountId| !(n2 == nominator && v2 == validator) implies
            #[trigger] post.spec_nomination_ledger_of(n2, v2) == pre.spec_nomination_ledger_of(
            n2,
            v2,
        ) by {
            if pre.spec_has_nomination(n2, v2) {
                let j = pre.spec_nomination_index(n2, v2);
                assert(post.nominations@[j] == pre.nominations@[j]);
                post.lemma_nomination_index_unique(n2, v2, j);
            } else {
                assert forall|k: int| 0 <= k < post.nominations@.len() implies !((
                #[trigger] post.nominations@[k]).nominator == n2 && post.nominations@[k].validator
                    == v2) by {
                    if k < last {
                        assert(post.nominations@[k] == pre.nominations@[k]);
                        assert(!(pre.nominations@[k].nominator == n2
                            && pre.nominations@[k].validator == v2));
                    }
                }
            }
        }
    }
}

} // verus!
