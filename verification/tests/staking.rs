use xstaking::aura::AuraReport;
use xstaking::state::Module;
use xstaking::types::Delta;
use xstaking::types::Error;
use xstaking::types::Event;
use xstaking::types::Forcing;
use xstaking::types::SlashFraction;
use xstaking::types::SESSIONS_PER_ROUND;
use xstaking::weight::settle;

fn fresh_module() -> Module {
    // treasury 900, team 901, minimum validator count 0, 3 sessions per
    // era, 10 blocks per session, initial reward 1000, minimum period 1.
    Module::new(900, 901, 0, 3, 10, 1000, 1)
}

#[test]
fn settle_accrues_stake_time() {
    assert_eq!(settle(5, 100, 10, 14), Ok(120));
    // zero elapsed time is valid and changes nothing
    assert_eq!(settle(5, 100, 14, 14), Ok(100));
}

#[test]
fn settle_rejects_time_reversal() {
    assert_eq!(settle(5, 100, 14, 10), Err(Error::InvalidTimeOrdering));
}

#[test]
fn settle_overflow_is_fatal() {
    assert_eq!(
        settle(u64::MAX, u128::MAX, 0, u64::MAX),
        Err(Error::ArithmeticOverflow)
    );
}

#[test]
fn proportion_zero_and_full() {
    assert_eq!(Module::generic_calculate_by_proportion(1000, 0, 10), Ok(0));
    assert_eq!(
        Module::generic_calculate_by_proportion(1000, 10, 10),
        Ok(1000)
    );
}

#[test]
fn proportion_truncates() {
    assert_eq!(Module::generic_calculate_by_proportion(1000, 1, 3), Ok(333));
}

#[test]
fn proportion_overflow_is_fatal() {
    assert_eq!(
        Module::generic_calculate_by_proportion(2, u128::MAX, 1),
        Err(Error::ArithmeticOverflow)
    );
}

#[test]
fn multiply_by_rational_exact() {
    assert_eq!(Module::multiply_by_rational(10, 3, 4), 7);
    assert_eq!(Module::multiply_by_rational(u64::MAX, 1, 1), u64::MAX);
    // num above den is reduced to den
    assert_eq!(Module::multiply_by_rational(100, 8, 4), 100);
    assert_eq!(Module::multiply_by_rational(1_000_000_007, 3, 7), 428_571_431);
}

#[test]
fn session_reward_halves_each_round() {
    let m = Module::new(900, 901, 0, 3, 10, 800, 1);
    assert_eq!(m.this_session_reward(0), 800);
    assert_eq!(m.this_session_reward(SESSIONS_PER_ROUND), 400);
    assert_eq!(m.this_session_reward(2 * SESSIONS_PER_ROUND), 200);
}

#[test]
fn team_cut_in_first_round_only() {
    let mut m = fresh_module();
    assert_eq!(m.try_fund_team(100, 0), 80);
    assert_eq!(m.free_balance(901), 20);
    assert_eq!(m.try_fund_team(100, SESSIONS_PER_ROUND), 100);
    assert_eq!(m.free_balance(901), 20);
}

#[test]
fn reward_splits_ten_ninety() {
    let mut m = fresh_module();
    m.register_validator(1, 101, 0);
    m.reward(1, 100);
    assert_eq!(m.free_balance(1), 10);
    assert_eq!(m.free_balance(101), 90);
}

#[test]
fn round_trip_full_round() {
    let mut m = fresh_module();
    m.register_validator(1, 101, 0);
    m.set_validator_vote_weight(1, 0, 0, Delta::Add(50));
    let mut list: Vec<u64> = vec![1];
    // the whole second round: the halved reward of 500 every session,
    // with a single validator owning the whole stake
    for s in SESSIONS_PER_ROUND..(2 * SESSIONS_PER_ROUND) {
        let distributable = m.distribute_session_reward(s, &mut list);
        assert_eq!(distributable, 500);
    }
    let rounds = SESSIONS_PER_ROUND as u64;
    assert_eq!(m.free_balance(1), 50 * rounds);
    assert_eq!(m.free_balance(101), 450 * rounds);
}

#[test]
fn claim_pays_and_consumes_weight() {
    let mut m = fresh_module();
    m.register_validator(1, 101, 0);
    m.set_validator_vote_weight(1, 0, 0, Delta::Add(100));
    m.set_nominator_vote_weight(2, 1, 0, 0, Delta::Add(100));
    assert!(m.issue(101, 1000));

    assert_eq!(m.claim(2, 1, 10), Ok(()));

    assert_eq!(m.free_balance(2), 1000);
    assert_eq!(m.free_balance(101), 0);
    // the backer's weight is consumed to zero at the current time
    assert_eq!(m.nominations[0].ledger.nomination, 100);
    assert_eq!(m.nominations[0].ledger.last_vote_weight, 0);
    assert_eq!(m.nominations[0].ledger.last_vote_weight_update, 10);
    // the validator's weight drops by exactly the claimed source weight
    assert_eq!(m.validators[0].ledger.total, 100);
    assert_eq!(m.validators[0].ledger.last_total_vote_weight, 0);
    assert_eq!(m.validators[0].ledger.last_total_vote_weight_update, 10);
    assert_eq!(m.events.len(), 1);
    assert_eq!(m.events[0], Event::Claim(2, 1, 1000));
}

#[test]
fn claim_rejects_time_reversal() {
    let mut m = fresh_module();
    m.register_validator(1, 101, 0);
    m.set_validator_vote_weight(1, 0, 10, Delta::Add(100));
    m.set_nominator_vote_weight(2, 1, 0, 10, Delta::Add(100));
    assert!(m.issue(101, 1000));
    assert_eq!(m.claim(2, 1, 5), Err(Error::InvalidTimeOrdering));
    assert_eq!(m.free_balance(2), 0);
    assert_eq!(m.free_balance(101), 1000);
}

#[test]
fn claim_surfaces_rejected_transfer() {
    let mut m = fresh_module();
    m.register_validator(1, 101, 0);
    m.set_validator_vote_weight(1, 0, 0, Delta::Add(100));
    m.set_nominator_vote_weight(2, 1, 0, 0, Delta::Add(100));
    assert!(m.issue(101, 1000));
    assert!(m.issue(2, u64::MAX));
    // the claimer's balance cannot take the dividend: surfaced, not ignored
    assert_eq!(m.claim(2, 1, 10), Err(Error::InsufficientPotBalance));
    assert_eq!(m.free_balance(101), 1000);
}

#[test]
fn slash_caps_at_pot_balance() {
    let mut m = fresh_module();
    m.register_validator(1, 101, 0);
    m.register_validator(2, 102, 0);
    assert!(m.issue(101, 1000));
    let report = vec![(1, SlashFraction::from_parts(500_000_000))];
    assert_eq!(m.on_offence(&report), Ok(0));
    let chilled = m.slash_offenders_in_session();
    assert_eq!(chilled, 0);
    assert_eq!(m.free_balance(900), 500);
    assert_eq!(m.free_balance(101), 500);
    assert!(m.validators[0].is_active);
}

#[test]
fn slash_force_chills_undercovered_offender() {
    let mut m = fresh_module();
    m.register_validator(1, 101, 0);
    m.register_validator(2, 102, 0);
    assert!(m.issue(101, 1000));
    // three times the pot balance is expected: the pot cannot cover it
    let report = vec![(1, SlashFraction::from_parts(3_000_000_000))];
    assert_eq!(m.on_offence(&report), Ok(0));
    let chilled = m.slash_offenders_in_session();
    assert_eq!(chilled, 1);
    assert_eq!(m.free_balance(900), 1000);
    assert_eq!(m.free_balance(101), 0);
    assert!(!m.validators[0].is_active);
    assert!(m.validators[1].is_active);
}

#[test]
fn slash_respects_minimum_validator_count() {
    let mut m = Module::new(900, 901, 2, 3, 10, 1000, 1);
    m.register_validator(1, 101, 0);
    m.register_validator(2, 102, 0);
    assert!(m.issue(101, 1000));
    let report = vec![(1, SlashFraction::from_parts(3_000_000_000))];
    assert_eq!(m.on_offence(&report), Ok(0));
    let chilled = m.slash_offenders_in_session();
    // the pot was wholly slashed, but chilling would fall below the minimum
    assert_eq!(chilled, 0);
    assert_eq!(m.free_balance(900), 1000);
    assert!(m.validators[0].is_active);
}

#[test]
fn offence_buffer_drains_exactly_once() {
    let mut m = fresh_module();
    m.register_validator(1, 101, 0);
    assert!(m.issue(101, 1000));
    let report = vec![(1, SlashFraction::from_parts(500_000_000))];
    assert_eq!(m.on_offence(&report), Ok(0));
    assert_eq!(m.offenders_in_session.len(), 1);
    m.slash_offenders_in_session();
    assert_eq!(m.offenders_in_session.len(), 0);
    // a re-entrant drain sees an empty set and moves nothing
    let chilled = m.slash_offenders_in_session();
    assert_eq!(chilled, 0);
    assert_eq!(m.free_balance(101), 500);
}

#[test]
fn offence_buffer_is_keyed_by_offender() {
    let mut m = fresh_module();
    m.register_validator(1, 101, 0);
    assert!(m.issue(101, 1000));
    let first = vec![(1, SlashFraction::from_parts(500_000_000))];
    let second = vec![(1, SlashFraction::from_parts(100_000_000))];
    assert_eq!(m.on_offence(&first), Ok(0));
    assert_eq!(m.on_offence(&second), Ok(0));
    assert_eq!(m.offenders_in_session.len(), 1);
    m.slash_offenders_in_session();
    // the replaced fraction of one tenth is the one applied
    assert_eq!(m.free_balance(900), 100);
}

#[test]
fn punish_rotation_with_wraparound() {
    let report = AuraReport { start_slot: 7, skipped: 10 };
    let pairs = report.punish(4);
    assert_eq!(pairs, vec![(3, 3), (0, 3), (1, 2), (2, 2)]);
}

#[test]
fn punish_stops_when_nothing_is_owed() {
    let report = AuraReport { start_slot: 1, skipped: 2 };
    let pairs = report.punish(4);
    assert_eq!(pairs, vec![(1, 1), (2, 1)]);
}

#[test]
fn timestamp_reports_skipped_slots() {
    let mut m = fresh_module();
    // the first observed block only primes the clock
    assert_eq!(m.on_timestamp_set(100, 100), None);
    // slots 2, 3 and 4 went without a block
    assert_eq!(
        m.on_timestamp_set(500, 100),
        Some(AuraReport { start_slot: 2, skipped: 3 })
    );
    // a directly following slot reports nothing
    assert_eq!(m.on_timestamp_set(600, 100), None);
}

#[test]
fn slot_duration_doubles_minimum_period() {
    let m = Module::new(900, 901, 0, 3, 10, 1000, 3000);
    assert_eq!(m.slot_duration(), 6000);
}

#[test]
fn offline_validator_slashed_with_its_reward() {
    let mut m = fresh_module();
    m.register_validator(1, 101, 0);
    m.set_validator_vote_weight(1, 0, 0, Delta::Add(50));
    // one skipped turn in a rotation of one: the validator is flagged
    let report = AuraReport { start_slot: 0, skipped: 1 };
    m.handle_report(&report);
    assert_eq!(m.validators[0].missed_count, 1);

    let mut list: Vec<u64> = vec![1];
    // second round: reward 500, split 50/450; then one missed turn costs
    // one per-block reward of 500 / 10 out of the pot
    m.distribute_session_reward(SESSIONS_PER_ROUND, &mut list);
    assert_eq!(m.free_balance(1), 50);
    assert_eq!(m.free_balance(101), 400);
    assert_eq!(m.free_balance(900), 50);
    assert_eq!(m.validators[0].missed_count, 0);
    assert!(m.validators[0].is_active);
    assert_eq!(list, vec![1]);
}

#[test]
fn era_lifecycle_in_order() {
    let mut m = fresh_module();
    m.register_validator(1, 101, 0);

    // the initial era is planned by the first session
    let planned = m.new_session(0);
    assert_eq!(planned, Some(vec![1]));
    assert_eq!(m.current_era, Some(0));
    assert_eq!(m.eras_start_session_index, vec![0]);

    m.start_session(0);
    assert_eq!(m.active_era.unwrap().index, 0);

    // three sessions per era: sessions 1 and 2 plan no change
    assert_eq!(m.new_session(1), None);
    assert!(!m.is_current_session_final);
    assert_eq!(m.new_session(2), None);
    assert!(m.is_current_session_final);
    assert_eq!(m.current_era, Some(0));

    // the era reaches its ideal length: a new one is planned
    let next = m.new_session(3);
    assert!(next.is_some());
    assert_eq!(m.current_era, Some(1));
    assert_eq!(m.eras_start_session_index, vec![0, 3]);

    // the previous session ends only after the new one was planned
    m.end_session(2);
    assert_eq!(m.active_era.unwrap().index, 0);

    m.start_session(3);
    assert_eq!(m.active_era.unwrap().index, 1);
}

#[test]
fn force_chill_triggers_forced_era() {
    let mut m = fresh_module();
    m.register_validator(1, 101, 0);
    m.register_validator(2, 102, 0);
    assert!(m.issue(101, 1000));
    assert_eq!(m.new_session(0), Some(vec![1, 2]));
    m.start_session(0);

    let report = vec![(1, SlashFraction::from_parts(3_000_000_000))];
    assert_eq!(m.on_offence(&report), Ok(0));
    // the offender's pot cannot cover the slash: it is chilled and an
    // early era transition is forced
    let planned = m.new_session(1);
    assert!(planned.is_some());
    assert_eq!(m.current_era, Some(1));
    assert_eq!(m.force_era, Forcing::NotForcing);
    assert!(!m.validators[0].is_active);
    // the pot was drained into the treasury, and each of the two
    // first-round sessions sent a fifth of the reward to the team
    assert_eq!(m.free_balance(900), 1000);
    assert_eq!(m.free_balance(101), 0);
    assert_eq!(m.free_balance(901), 400);
}

#[test]
fn forcing_modes_govern_era_end() {
    let mut m = fresh_module();
    m.register_validator(1, 101, 0);
    assert!(m.new_session(0).is_some());
    assert_eq!(m.current_era, Some(0));

    // ForceAlways ends the era at every session boundary
    m.force_era = Forcing::ForceAlways;
    assert!(m.new_session(1).is_some());
    assert_eq!(m.current_era, Some(1));
    assert_eq!(m.force_era, Forcing::ForceAlways);

    // ForceNone never ends an era automatically, however long it ran
    m.force_era = Forcing::ForceNone;
    assert_eq!(m.new_session(10), None);
    assert_eq!(m.current_era, Some(1));

    // ForceNew ends the era once and consumes itself
    m.force_era = Forcing::ForceNew;
    assert!(m.new_session(11).is_some());
    assert_eq!(m.current_era, Some(2));
    assert_eq!(m.force_era, Forcing::NotForcing);
}

#[test]
fn distribution_without_stake_moves_nothing() {
    let mut m = fresh_module();
    m.register_validator(1, 101, 0);
    let mut list: Vec<u64> = vec![1];
    // past the first round there is no team cut either: nothing moves
    let distributable = m.distribute_session_reward(SESSIONS_PER_ROUND, &mut list);
    assert_eq!(distributable, 500);
    assert_eq!(m.free_balance(1), 0);
    assert_eq!(m.free_balance(101), 0);
}

#[test]
fn transfer_rejects_uncovered_movement() {
    let mut m = fresh_module();
    assert_eq!(m.move_free_balance(1, 2, 10), Err(Error::TransferError));
    assert!(m.issue(1, 10));
    assert_eq!(m.move_free_balance(1, 2, 10), Ok(()));
    assert_eq!(m.free_balance(2), 10);
}

#[test]
fn fraction_applies_rounding_down() {
    let f = SlashFraction::from_parts(333_333_333);
    assert_eq!(f.of_balance(3), 0);
    assert_eq!(f.of_balance(1_000_000_000), 333_333_333);
}
