use agent_reputation::contract::AgentReputationContract;
use agent_reputation::types::{CategoryRatings, TransferOutcome, ViolationType};
use agent_reputation::ReputationError;

fn owner() -> String {
    "owner.near".to_string()
}

fn agent() -> String {
    "agent.near".to_string()
}

fn fresh_contract() -> AgentReputationContract {
    AgentReputationContract::new(owner(), "token.near".to_string(), 100)
}

fn ratings(a: u8, r: u8, c: u8, p: u8, e: u8) -> CategoryRatings {
    CategoryRatings { accuracy: a, response_time: r, communication: c, problem_solving: p, ethics: e }
}

fn registered_contract() -> AgentReputationContract {
    let mut c = fresh_contract();
    c.register_agent(&agent(), &agent(), vec!["coding".to_string()], 1_000).unwrap();
    c
}

#[test]
fn register_initializes_neutral_record() {
    let c = registered_contract();
    let view = c.get_agent_reputation(&agent()).unwrap();
    assert_eq!(view.score, 50);
    assert_eq!(view.total_interactions, 0);
    assert_eq!(view.successful_interactions, 0);
    assert_eq!(view.specializations, vec!["coding".to_string()]);
    assert_eq!(view.last_update, 1_000);
}

#[test]
fn register_rejects_proxy_registration() {
    let mut c = fresh_contract();
    let r = c.register_agent(&owner(), &agent(), vec![], 1_000);
    assert_eq!(r, Err(ReputationError::Unauthorized));
    assert!(c.get_agent_reputation(&agent()).is_none());
}

#[test]
fn register_twice_fails_and_leaves_state_unchanged() {
    let mut c = registered_contract();
    let r = c.register_agent(&agent(), &agent(), vec!["other".to_string()], 2_000);
    assert_eq!(r, Err(ReputationError::AlreadyRegistered));
    let view = c.get_agent_reputation(&agent()).unwrap();
    assert_eq!(view.score, 50);
    assert_eq!(view.specializations, vec!["coding".to_string()]);
    assert_eq!(view.last_update, 1_000);
    assert_eq!(c.agent_reputations.len(), 1);
}

#[test]
fn feedback_with_overlarge_sub_rating_is_rejected() {
    let mut c = registered_contract();
    let r = c.add_feedback(&owner(), &agent(), 4, ratings(6, 5, 5, 5, 5), None, 2_000);
    assert_eq!(r, Err(ReputationError::InvalidRating));
    assert_eq!(c.agent_reputations[0].reputation.feedback_history.len(), 0);
    let view = c.get_agent_reputation(&agent()).unwrap();
    assert_eq!(view.total_interactions, 0);
    assert_eq!(view.score, 50);
}

#[test]
fn feedback_with_overlarge_overall_rating_is_rejected() {
    let mut c = registered_contract();
    let r = c.add_feedback(&owner(), &agent(), 6, ratings(5, 5, 5, 5, 5), None, 2_000);
    assert_eq!(r, Err(ReputationError::InvalidRating));
    assert_eq!(c.agent_reputations[0].reputation.feedback_history.len(), 0);
}

#[test]
fn feedback_for_unknown_agent_is_rejected() {
    let mut c = fresh_contract();
    let r = c.add_feedback(&owner(), &agent(), 4, ratings(4, 4, 4, 4, 4), None, 2_000);
    assert_eq!(r, Err(ReputationError::NotRegistered));
}

#[test]
fn single_top_feedback_gives_exact_score() {
    let mut c = registered_contract();
    // weighted average 5 -> 100 on the percent scale; success rate 100;
    // combined (100 + 100) / 2 = 100; no stake bonus.
    c.add_feedback(&owner(), &agent(), 5, ratings(5, 4, 3, 2, 1), None, 2_000).unwrap();
    let view = c.get_agent_reputation(&agent()).unwrap();
    assert_eq!(view.score, 100);
    assert_eq!(view.total_interactions, 1);
    assert_eq!(view.successful_interactions, 1);
    assert_eq!(view.last_update, 2_000);
}

#[test]
fn two_feedback_entries_weight_the_recent_one_higher() {
    let mut c = registered_contract();
    // Ratings 2 then 5: weighted average (2*1 + 5*2) / 3 = 4 -> 80.
    // Success rate: only the 5 counts, 1 of 2 -> 50. Combined 65.
    c.add_feedback(&owner(), &agent(), 2, ratings(2, 2, 2, 2, 2), None, 2_000).unwrap();
    c.add_feedback(&owner(), &agent(), 5, ratings(4, 4, 4, 4, 4), None, 2_100).unwrap();
    let view = c.get_agent_reputation(&agent()).unwrap();
    assert_eq!(view.score, 65);
    assert_eq!(view.total_interactions, 2);
    assert_eq!(view.successful_interactions, 1);
}

#[test]
fn category_averages_are_plain_truncating_means() {
    let mut c = registered_contract();
    c.add_feedback(&owner(), &agent(), 4, ratings(5, 4, 3, 2, 1), None, 2_000).unwrap();
    c.add_feedback(&owner(), &agent(), 4, ratings(4, 1, 2, 5, 0), None, 2_100).unwrap();
    let detailed = c.get_agent_reputation_detailed(&agent()).unwrap();
    // Truncating means: (5+4)/2=4, (4+1)/2=2, (3+2)/2=2, (2+5)/2=3, (1+0)/2=0.
    assert_eq!(detailed.category_scores, ratings(4, 2, 2, 3, 0));
}

#[test]
fn stake_bonus_is_folded_into_the_score() {
    let mut c = registered_contract();
    c.stake_tokens(&agent(), 250);
    // Rating 3: weighted average 60, success rate 100, combined 80,
    // stake of 250 against a minimum of 100 adds 6 -> 86.
    c.add_feedback(&owner(), &agent(), 3, ratings(3, 3, 3, 3, 3), None, 2_000).unwrap();
    let view = c.get_agent_reputation(&agent()).unwrap();
    assert_eq!(view.score, 86);
}

#[test]
fn expired_feedback_never_influences_the_recomputed_score() {
    // Two agents with identical counters; one additionally carries an
    // expired entry with a very different rating. Their recomputed
    // scores must match the fresh-only computation.
    let mut with_expired = registered_contract();
    let expiry = with_expired.feedback_expiry_period;
    let t0: u64 = 10;
    let t1: u64 = t0 + expiry + 5; // t0 has expired by t1
    with_expired.add_feedback(&owner(), &agent(), 0, ratings(0, 0, 0, 0, 0), None, t0).unwrap();
    with_expired.add_feedback(&owner(), &agent(), 5, ratings(5, 5, 5, 5, 5), None, t1).unwrap();
    with_expired.update_reputation_on_stake_change(&agent(), t1);
    let score_with_expired = with_expired.get_agent_reputation(&agent()).unwrap().score;
    // Fresh-only computation by hand: one valid entry of rating 5 ->
    // weighted average 100; success rate 1 of 2 -> 50; combined 75.
    assert_eq!(score_with_expired, 75);
    let detailed = with_expired.get_agent_reputation_detailed(&agent()).unwrap();
    // Category averages over the valid window only: all fives.
    assert_eq!(detailed.category_scores, ratings(5, 5, 5, 5, 5));
}

#[test]
fn recomputing_twice_with_no_new_feedback_is_idempotent() {
    let mut c = registered_contract();
    c.add_feedback(&owner(), &agent(), 4, ratings(4, 4, 4, 4, 4), None, 2_000).unwrap();
    c.update_reputation_on_stake_change(&agent(), 3_000);
    let first = c.get_agent_reputation(&agent()).unwrap().score;
    c.update_reputation_on_stake_change(&agent(), 3_000);
    let second = c.get_agent_reputation(&agent()).unwrap().score;
    assert_eq!(first, second);
}

#[test]
fn security_breach_floors_score_and_slashes_half_the_stake() {
    let mut c = registered_contract();
    c.stake_tokens(&agent(), 1_000);
    c.agent_reputations[0].reputation.score = 40;
    let r = c.report_violation(
        &owner(),
        &agent(),
        ViolationType::SecurityBreach,
        "breach".to_string(),
        None,
        5_000,
    );
    assert_eq!(r, Ok(()));
    let view = c.get_agent_reputation(&agent()).unwrap();
    assert_eq!(view.score, 0);
    assert_eq!(c.agent_stakes[0].amount, 500);
    let violation = &c.agent_reputations[0].reputation.violation_history[0];
    // Only 40 points could be deducted before the zero floor; the record
    // captures what was actually applied, not the table penalty of 60.
    assert_eq!(violation.penalty_applied, 40);
    assert_eq!(violation.tokens_slashed, 500);
    assert_eq!(violation.timestamp, 5_000);
}

#[test]
fn minor_infraction_deducts_five_points_and_one_percent() {
    let mut c = registered_contract();
    c.stake_tokens(&agent(), 1_000);
    let r = c.report_violation(
        &owner(),
        &agent(),
        ViolationType::MinorInfraction,
        "oops".to_string(),
        Some("evidence".to_string()),
        5_000,
    );
    assert_eq!(r, Ok(()));
    assert_eq!(c.get_agent_reputation(&agent()).unwrap().score, 45);
    assert_eq!(c.agent_stakes[0].amount, 990);
    // The full table penalty fit above the floor, so it is what was applied.
    assert_eq!(c.agent_reputations[0].reputation.violation_history[0].penalty_applied, 5);
}

#[test]
fn unauthorized_violation_report_appends_nothing() {
    let mut c = registered_contract();
    let stranger = "stranger.near".to_string();
    let r = c.report_violation(
        &stranger,
        &agent(),
        ViolationType::MajorInfraction,
        "report".to_string(),
        None,
        5_000,
    );
    assert_eq!(r, Err(ReputationError::Unauthorized));
    assert_eq!(c.agent_reputations[0].reputation.violation_history.len(), 0);
    assert_eq!(c.get_agent_reputation(&agent()).unwrap().score, 50);
}

#[test]
fn restore_is_capped_at_exactly_one_hundred() {
    let mut c = registered_contract();
    c.agent_reputations[0].reputation.score = 90;
    let r = c.restore_reputation(&owner(), &agent(), 30, "appeal upheld".to_string());
    assert_eq!(r, Ok(()));
    assert_eq!(c.get_agent_reputation(&agent()).unwrap().score, 100);
}

#[test]
fn restore_requires_owner_or_governance() {
    let mut c = registered_contract();
    let r = c.restore_reputation(&agent(), &agent(), 10, "self-service".to_string());
    assert_eq!(r, Err(ReputationError::Unauthorized));
    assert_eq!(c.get_agent_reputation(&agent()).unwrap().score, 50);
}

#[test]
fn appeal_with_out_of_range_index_is_rejected() {
    let mut c = registered_contract();
    let r = c.appeal_violation(&agent(), 0, "nothing to appeal".to_string());
    assert_eq!(r, Err(ReputationError::InvalidIndex));
}

#[test]
fn appeal_with_valid_index_is_accepted_and_changes_nothing() {
    let mut c = registered_contract();
    c.report_violation(&owner(), &agent(), ViolationType::MinorInfraction, "x".to_string(), None, 5_000)
        .unwrap();
    let score_before = c.get_agent_reputation(&agent()).unwrap().score;
    let r = c.appeal_violation(&agent(), 0, "unfair".to_string());
    assert_eq!(r, Ok(()));
    assert_eq!(c.get_agent_reputation(&agent()).unwrap().score, score_before);
}

#[test]
fn remediation_grants_five_points_capped_at_one_hundred() {
    let mut c = registered_contract();
    let r = c.complete_remediation_task(&agent(), "task-1".to_string(), "done".to_string());
    assert_eq!(r, Ok(()));
    assert_eq!(c.get_agent_reputation(&agent()).unwrap().score, 55);
    c.agent_reputations[0].reputation.score = 98;
    c.complete_remediation_task(&agent(), "task-2".to_string(), "done".to_string()).unwrap();
    assert_eq!(c.get_agent_reputation(&agent()).unwrap().score, 100);
}

#[test]
fn unstake_beyond_stake_is_rejected() {
    let mut c = registered_contract();
    c.stake_tokens(&agent(), 100);
    let r = c.unstake_itlx(&agent(), 150);
    assert_eq!(r.err(), Some(ReputationError::InsufficientStake));
    assert_eq!(c.agent_stakes[0].amount, 100);
}

#[test]
fn unstaking_below_minimum_costs_five_points() {
    let mut c = registered_contract();
    c.stake_tokens(&agent(), 200);
    let request = c.unstake_itlx(&agent(), 150).unwrap();
    assert_eq!(request.token_contract_id, "token.near".to_string());
    assert_eq!(request.receiver_id, agent());
    assert_eq!(request.amount, 150);
    assert_eq!(c.agent_stakes[0].amount, 50);
    assert_eq!(c.get_agent_reputation(&agent()).unwrap().score, 45);
}

#[test]
fn unstaking_below_minimum_spares_a_score_of_five_or_less() {
    let mut c = registered_contract();
    c.stake_tokens(&agent(), 200);
    c.agent_reputations[0].reputation.score = 5;
    c.unstake_itlx(&agent(), 150).unwrap();
    assert_eq!(c.get_agent_reputation(&agent()).unwrap().score, 5);
}

#[test]
fn stake_deposit_outcome_failure_changes_nothing() {
    let mut c = registered_contract();
    let token = c.begin_stake_transfer(&agent(), 500);
    let r = c.on_stake_complete(&agent(), 500, TransferOutcome::Failure, token);
    assert_eq!(r, Err(ReputationError::TransferFailed));
    assert!(c.agent_stakes.is_empty());
    // The failed request took its one outcome; the token is spent.
    let again = c.on_stake_complete(&agent(), 500, TransferOutcome::Success, token);
    assert_eq!(again, Err(ReputationError::Unauthorized));
    assert!(c.agent_stakes.is_empty());
}

#[test]
fn stake_deposit_outcome_success_credits_the_stake() {
    let mut c = registered_contract();
    let token = c.begin_stake_transfer(&agent(), 500);
    let r = c.on_stake_complete(&agent(), 500, TransferOutcome::Success, token);
    assert_eq!(r, Ok(()));
    assert_eq!(c.agent_stakes[0].amount, 500);
}

#[test]
fn duplicate_success_callback_cannot_double_credit() {
    let mut c = registered_contract();
    let token = c.begin_stake_transfer(&agent(), 500);
    c.on_stake_complete(&agent(), 500, TransferOutcome::Success, token).unwrap();
    assert_eq!(c.agent_stakes[0].amount, 500);
    let replay = c.on_stake_complete(&agent(), 500, TransferOutcome::Success, token);
    assert_eq!(replay, Err(ReputationError::Unauthorized));
    assert_eq!(c.agent_stakes[0].amount, 500);
}

#[test]
fn completion_must_match_the_initiated_request() {
    let mut c = registered_contract();
    let token = c.begin_stake_transfer(&agent(), 500);
    // Wrong amount, wrong account, unknown token, wrong purpose: all refused.
    assert_eq!(
        c.on_stake_complete(&agent(), 400, TransferOutcome::Success, token),
        Err(ReputationError::Unauthorized),
    );
    assert_eq!(
        c.on_stake_complete(&owner(), 500, TransferOutcome::Success, token),
        Err(ReputationError::Unauthorized),
    );
    assert_eq!(
        c.on_stake_complete(&agent(), 500, TransferOutcome::Success, token + 1),
        Err(ReputationError::Unauthorized),
    );
    assert_eq!(
        c.on_recovery_stake_complete(&agent(), 500, TransferOutcome::Success, token),
        Err(ReputationError::Unauthorized),
    );
    assert!(c.agent_stakes.is_empty());
    // The matching completion still goes through afterwards.
    assert_eq!(c.on_stake_complete(&agent(), 500, TransferOutcome::Success, token), Ok(()));
    assert_eq!(c.agent_stakes[0].amount, 500);
}

#[test]
fn recovery_boost_is_only_for_low_scores() {
    let mut c = registered_contract();
    assert_eq!(
        c.boost_recovery_with_stake(&agent(), 100).err(),
        Some(ReputationError::Unauthorized),
    );
    c.agent_reputations[0].reputation.score = 30;
    assert!(c.boost_recovery_with_stake(&agent(), 100).is_ok());
}

#[test]
fn recovery_stake_grants_capped_points() {
    let mut c = registered_contract();
    c.agent_reputations[0].reputation.score = 30;
    // 150 * 10 / 100 = 15 points, under the cap of 20.
    let token = c.boost_recovery_with_stake(&agent(), 150).unwrap();
    let r = c.on_recovery_stake_complete(&agent(), 150, TransferOutcome::Success, token);
    assert_eq!(r, Ok(()));
    assert_eq!(c.get_agent_reputation(&agent()).unwrap().score, 45);
    // 1000 * 10 / 100 = 100, capped at 20 points.
    c.agent_reputations[0].reputation.score = 30;
    let token = c.boost_recovery_with_stake(&agent(), 1_000).unwrap();
    c.on_recovery_stake_complete(&agent(), 1_000, TransferOutcome::Success, token).unwrap();
    assert_eq!(c.get_agent_reputation(&agent()).unwrap().score, 50);
}

#[test]
fn recovery_stake_failure_reports_and_changes_nothing() {
    let mut c = registered_contract();
    c.agent_reputations[0].reputation.score = 30;
    let token = c.boost_recovery_with_stake(&agent(), 150).unwrap();
    let r = c.on_recovery_stake_complete(&agent(), 150, TransferOutcome::Failure, token);
    assert_eq!(r, Err(ReputationError::TransferFailed));
    assert_eq!(c.get_agent_reputation(&agent()).unwrap().score, 30);
    // The failed request is spent; a late success grants nothing.
    let late = c.on_recovery_stake_complete(&agent(), 150, TransferOutcome::Success, token);
    assert_eq!(late, Err(ReputationError::Unauthorized));
    assert_eq!(c.get_agent_reputation(&agent()).unwrap().score, 30);
}

#[test]
fn scores_and_counters_stay_within_bounds_across_operations() {
    let mut c = registered_contract();
    c.stake_tokens(&agent(), 10_000);
    c.add_feedback(&owner(), &agent(), 5, ratings(5, 5, 5, 5, 5), None, 2_000).unwrap();
    c.add_feedback(&owner(), &agent(), 5, ratings(5, 5, 5, 5, 5), None, 2_100).unwrap();
    c.restore_reputation(&owner(), &agent(), 90, "push up".to_string()).unwrap();
    let view = c.get_agent_reputation(&agent()).unwrap();
    assert!(view.score <= 100);
    assert!(view.successful_interactions <= view.total_interactions);
    c.report_violation(&owner(), &agent(), ViolationType::SecurityBreach, "x".to_string(), None, 3_000)
        .unwrap();
    c.report_violation(&owner(), &agent(), ViolationType::SecurityBreach, "y".to_string(), None, 3_100)
        .unwrap();
    let view = c.get_agent_reputation(&agent()).unwrap();
    assert!(view.score <= 100);
}
