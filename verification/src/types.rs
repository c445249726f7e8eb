use vstd::prelude::*;

verus! {

/// Stable identity of an account in the ledger model.  Reward pots, the
/// treasury and the team account are ordinary accounts of this kind.
pub type AccountId = u64;

/// Quantity of the staking token.
pub type Balance = u64;

/// Accumulated vote weight (the time-integral of staked amount), kept in a
/// widened integer so that products of amount and elapsed time always fit.
pub type WeightType = u128;

/// Index of a scheduling session.
pub type SessionIndex = u32;

/// Index of an era: a run of sessions after which validator-set changes
/// take effect.
pub type EraIndex = u32;

/// Block height, used as the time base of weight settlement.
pub type BlockNumber = u64;

/// Number of sessions in one halving round of the reward schedule.
pub const SESSIONS_PER_ROUND: u32 = 210000;

/// Denominator of a slash fraction, in parts per billion.
pub const BILLION: u32 = 1000000000;

/// Error taxonomy of the engine.  Every failure aborts the enclosing
/// operation without partially applying its ledger mutations.
#[derive(Clone, Copy, PartialEq, Eq, Structural, Debug)]
pub enum Error {
    /// A widened intermediate exceeded the representable range; fatal,
    /// never silently saturated.
    ArithmeticOverflow,
    /// Weight settlement was invoked with a current time earlier than the
    /// recorded last update.
    InvalidTimeOrdering,
    /// The ledger collaborator rejected the transfer of a dividend out of a
    /// reward pot.
    InsufficientPotBalance,
    /// The ledger collaborator rejected a balance movement.
    TransferError,
}

/// A pending change of a staked amount.
#[derive(Clone, Copy, PartialEq, Eq, Structural, Debug)]
pub enum Delta {
    Add(Balance),
    Sub(Balance),
    Zero,
}

/// A slash fraction in parts per billion, applied to reward-pot balances
/// (never to staked principal).
#[derive(Clone, Copy, PartialEq, Eq, Structural, Debug)]
pub struct SlashFraction {
    pub parts: u32,
}

impl SlashFraction {
    /// The fraction is at most one.
    pub open spec fn is_valid(self) -> bool {
        self.parts <= BILLION
    }

    /// What this fraction takes of `balance`: floor(parts * balance / BILLION).
    pub open spec fn spec_of_balance(self, balance: Balance) -> u128 {
        ((self.parts as int) * (balance as int) / (BILLION as int)) as u128
    }

    /// Builds a fraction from parts per billion.  More than a billion
    /// parts stands for a penalty multiplier above one, whose expected
    /// slash can exceed the pot that has to cover it.
    pub fn from_parts(parts: u32) -> (r: SlashFraction)
        ensures
            r.parts == parts,
    {
        SlashFraction { parts }
    }

    /// Applies the fraction to a balance, rounding down.
    pub fn of_balance(self, balance: Balance) -> (r: u128)
        ensures
            r == self.spec_of_balance(balance),
            self.is_valid() ==> r <= balance,
    {
        let p: u128 = self.parts as u128;
        let b: u128 = balance as u128;
        proof {
            assert(p as int * b as int <= 0xffffffffu128 as int
                * 0xffffffffffffffffu128 as int) by (nonlinear_arith)
                requires
                    p <= 0xffffffffu128,
                    b <= 0xffffffffffffffffu128,
            ;
            if self.is_valid() {
                assert(p as int * b as int / (BILLION as int) <= b as int) by (nonlinear_arith)
                    requires
                        p <= BILLION as u128,
                        b >= 0,
                ;
            }
        }
        p * b / (BILLION as u128)
    }
}

/// Record of the next active era, replaced wholesale when a new era starts.
#[derive(Clone, Copy, Debug)]
pub struct ActiveEraInfo {
    /// Monotonically non-decreasing era index.
    pub index: EraIndex,
    /// Moment the era started, fixated by a later timestamp hook; `None`
    /// until then.
    pub start: Option<BlockNumber>,
}

/// Whether the era-length policy is overridden at a session boundary.
#[derive(Clone, Copy, PartialEq, Eq, Structural, Debug)]
pub enum Forcing {
    /// Eras end exactly at the ideal length.
    NotForcing,
    /// End the current era at the next session boundary, once.
    ForceNew,
    /// Never end an era automatically.
    ForceNone,
    /// End the era at every session boundary.
    ForceAlways,
}

/// Observable outcome notifications; failure to emit is never fatal.
#[derive(Clone, Copy, PartialEq, Eq, Structural, Debug)]
pub enum Event {
    /// A backer withdrew a dividend: (backer, validator, dividend).
    Claim(AccountId, AccountId, Balance),
}

/// Per-validator record of staked amount and accumulated vote weight.
#[derive(Clone, Copy, PartialEq, Eq, Structural, Debug)]
pub struct ValidatorLedger {
    /// Total amount staked behind the validator.
    pub total: Balance,
    /// Accumulated vote weight as of the last update.
    pub last_total_vote_weight: WeightType,
    /// Time of the last weight update; never later than the current time.
    pub last_total_vote_weight_update: BlockNumber,
}

/// Per backer-validator pair record of nomination and accumulated weight.
#[derive(Clone, Copy, PartialEq, Eq, Structural, Debug)]
pub struct NominatorLedger {
    /// Amount nominated to the validator.
    pub nomination: Balance,
    /// Accumulated vote weight as of the last update.
    pub last_vote_weight: WeightType,
    /// Time of the last weight update.
    pub last_vote_weight_update: BlockNumber,
}

/// A registered validator: its profile and its weight ledger.
#[derive(Clone, Copy, PartialEq, Eq, Structural, Debug)]
pub struct Validator {
    /// The validator's own account.
    pub who: AccountId,
    /// The escrow account holding its undistributed rewards, the sole
    /// target of slashing.
    pub reward_pot: AccountId,
    /// Time of registration.
    pub registered_at: BlockNumber,
    /// Whether the validator is in the active set; inactive validators earn
    /// nothing.
    pub is_active: bool,
    /// How many offline reports are pending against it for the session.
    pub missed_count: u32,
    /// Staked amount and accumulated weight.
    pub ledger: ValidatorLedger,
}

/// A backer's nomination towards one validator.
#[derive(Clone, Copy, PartialEq, Eq, Structural, Debug)]
pub struct Nomination {
    pub nominator: AccountId,
    pub validator: AccountId,
    pub ledger: NominatorLedger,
}

/// The factors a caller needs to settle weight at the current time;
/// ephemeral, computed per settlement.
#[derive(Clone, Copy, PartialEq, Eq, Structural, Debug)]
pub struct WeightFactors {
    /// Currently staked amount.
    pub amount: Balance,
    /// Weight accumulated up to the last update.
    pub last_weight: WeightType,
    /// Time elapsed since the last update.
    pub elapsed: BlockNumber,
}

} // verus!
