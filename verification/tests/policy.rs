use agent_reputation::contract::AgentReputationContract;
use agent_reputation::policy::{capability_limits_for_level, trust_level_for_score};
use agent_reputation::scoring::calculate_stake_bonus;
use agent_reputation::types::{CrossChainReputation, IntentStatus, TransferOutcome, TrustLevel};
use agent_reputation::ReputationError;

fn owner() -> String {
    "owner.near".to_string()
}

fn agent() -> String {
    "agent.near".to_string()
}

fn registered_contract() -> AgentReputationContract {
    let mut c = AgentReputationContract::new(owner(), "token.near".to_string(), 100);
    c.register_agent(&agent(), &agent(), vec!["analysis".to_string()], 1_000).unwrap();
    c
}

#[test]
fn stake_bonus_is_a_step_function() {
    assert_eq!(calculate_stake_bonus(99, 100), 0);
    assert_eq!(calculate_stake_bonus(100, 100), 3);
    assert_eq!(calculate_stake_bonus(250, 100), 6);
    assert_eq!(calculate_stake_bonus(999, 100), 15);
}

#[test]
fn stake_bonus_covers_every_step() {
    assert_eq!(calculate_stake_bonus(0, 100), 0);
    assert_eq!(calculate_stake_bonus(199, 100), 3);
    assert_eq!(calculate_stake_bonus(200, 100), 6);
    assert_eq!(calculate_stake_bonus(300, 100), 9);
    assert_eq!(calculate_stake_bonus(400, 100), 12);
    assert_eq!(calculate_stake_bonus(500, 100), 15);
    assert_eq!(calculate_stake_bonus(u128::MAX, 100), 15);
}

#[test]
fn trust_level_boundaries_are_exact() {
    let c = registered_contract();
    assert_eq!(c.get_trust_level(30), TrustLevel::Novice);
    assert_eq!(c.get_trust_level(31), TrustLevel::Apprentice);
    assert_eq!(c.get_trust_level(100), TrustLevel::Master);
    assert_eq!(c.get_trust_level(0), TrustLevel::Novice);
    assert_eq!(c.get_trust_level(50), TrustLevel::Apprentice);
    assert_eq!(c.get_trust_level(51), TrustLevel::Trusted);
    assert_eq!(c.get_trust_level(75), TrustLevel::Trusted);
    assert_eq!(c.get_trust_level(76), TrustLevel::Expert);
    assert_eq!(c.get_trust_level(90), TrustLevel::Expert);
    assert_eq!(c.get_trust_level(91), TrustLevel::Master);
}

#[test]
fn trust_level_partitions_the_whole_score_range() {
    for score in 0..=100u32 {
        let level = trust_level_for_score(score);
        let expected = if score <= 30 {
            TrustLevel::Novice
        } else if score <= 50 {
            TrustLevel::Apprentice
        } else if score <= 75 {
            TrustLevel::Trusted
        } else if score <= 90 {
            TrustLevel::Expert
        } else {
            TrustLevel::Master
        };
        assert_eq!(level, expected);
    }
}

#[test]
fn capability_table_rows_are_fixed() {
    let novice = capability_limits_for_level(TrustLevel::Novice);
    assert_eq!(novice.max_complexity, 3);
    assert_eq!(novice.max_transaction_value, 100_000_000_000_000_000_000);
    assert!(!novice.can_access_critical_systems);
    assert!(!novice.can_operate_autonomously);
    assert!(!novice.can_delegate);
    let trusted = capability_limits_for_level(TrustLevel::Trusted);
    assert_eq!(trusted.max_complexity, 7);
    assert_eq!(trusted.max_transaction_value, 2_000_000_000_000_000_000_000);
    assert!(!trusted.can_access_critical_systems);
    assert!(trusted.can_operate_autonomously);
    assert!(trusted.can_delegate);
    let master = capability_limits_for_level(TrustLevel::Master);
    assert_eq!(master.max_complexity, 10);
    assert_eq!(master.max_transaction_value, u128::MAX);
    assert!(master.can_access_critical_systems);
    assert!(master.can_operate_autonomously);
    assert!(master.can_delegate);
}

#[test]
fn capability_limits_follow_the_current_score() {
    let mut c = registered_contract();
    // A fresh agent sits at 50: Apprentice.
    let limits = c.get_capability_limits(&agent()).unwrap();
    assert_eq!(limits.max_complexity, 5);
    assert_eq!(limits.max_transaction_value, 500_000_000_000_000_000_000);
    c.agent_reputations[0].reputation.score = 95;
    let limits = c.get_capability_limits(&agent()).unwrap();
    assert_eq!(limits.max_complexity, 10);
    assert!(c.get_capability_limits(&"nobody.near".to_string()).is_none());
}

#[test]
fn action_checks_fail_closed() {
    let mut c = registered_contract();
    c.agent_reputations[0].reputation.score = 60; // Trusted
    assert!(c.can_perform_action(&agent(), "transaction".to_string(), Some(1_000)));
    assert!(!c.can_perform_action(
        &agent(),
        "transaction".to_string(),
        Some(3_000_000_000_000_000_000_000),
    ));
    assert!(!c.can_perform_action(&agent(), "transaction".to_string(), None));
    assert!(!c.can_perform_action(&agent(), "critical_access".to_string(), None));
    assert!(c.can_perform_action(&agent(), "autonomous_operation".to_string(), None));
    assert!(c.can_perform_action(&agent(), "delegation".to_string(), None));
    assert!(!c.can_perform_action(&agent(), "launch_rockets".to_string(), None));
    assert!(!c.can_perform_action(&"nobody.near".to_string(), "delegation".to_string(), None));
}

#[test]
fn detailed_view_carries_trust_level_and_categories() {
    let c = registered_contract();
    let detailed = c.get_agent_reputation_detailed(&agent()).unwrap();
    assert_eq!(detailed.score, 50);
    assert_eq!(detailed.trust_level, TrustLevel::Apprentice);
    assert_eq!(detailed.category_scores.accuracy, 0);
    assert!(c.get_agent_reputation_detailed(&"nobody.near".to_string()).is_none());
}

#[test]
fn recorded_intents_start_in_created_state() {
    let c = registered_contract();
    let client = "client.near".to_string();
    let intent = c
        .record_intent(
            &client,
            "intent-1".to_string(),
            agent(),
            "swap".to_string(),
            "{}".to_string(),
            7_000,
        )
        .unwrap();
    assert_eq!(intent.status, IntentStatus::Created);
    assert_eq!(intent.agent_id, agent());
    assert_eq!(intent.client_id, client);
    assert_eq!(intent.timestamp, 7_000);
    let missing = c.record_intent(
        &client,
        "intent-2".to_string(),
        "nobody.near".to_string(),
        "swap".to_string(),
        "{}".to_string(),
        7_000,
    );
    assert_eq!(missing.err(), Some(ReputationError::NotRegistered));
}

#[test]
fn intent_completion_advances_the_counters() {
    let mut c = registered_contract();
    c.update_intent_status(&agent(), "intent-1".to_string(), "completed".to_string(), None).unwrap();
    let view = c.get_agent_reputation(&agent()).unwrap();
    assert_eq!(view.total_interactions, 1);
    assert_eq!(view.successful_interactions, 1);
    c.update_intent_status(&agent(), "intent-2".to_string(), "failed".to_string(), None).unwrap();
    let view = c.get_agent_reputation(&agent()).unwrap();
    assert_eq!(view.total_interactions, 2);
    assert_eq!(view.successful_interactions, 1);
    c.update_intent_status(&agent(), "intent-3".to_string(), "in_progress".to_string(), None).unwrap();
    let view = c.get_agent_reputation(&agent()).unwrap();
    assert_eq!(view.total_interactions, 2);
}

#[test]
fn export_hands_out_the_current_snapshot() {
    let c = registered_contract();
    let snapshot = c.export_reputation(&agent(), &agent(), 9_000).unwrap();
    assert_eq!(snapshot.score, 50);
    assert_eq!(snapshot.total_interactions, 0);
    assert_eq!(snapshot.specializations, vec!["analysis".to_string()]);
    assert_eq!(snapshot.source_chain, "near".to_string());
    assert_eq!(snapshot.timestamp, 9_000);
    let foreign = c.export_reputation(&owner(), &agent(), 9_000);
    assert_eq!(foreign.err(), Some(ReputationError::Unauthorized));
    let missing = c.export_reputation(&owner(), &owner(), 9_000);
    assert_eq!(missing.err(), Some(ReputationError::NotRegistered));
}

#[test]
fn import_with_the_default_verifier_always_fails() {
    let mut c = registered_contract();
    let r = c.import_cross_chain_reputation(
        &agent(),
        &agent(),
        "ethereum".to_string(),
        "proof-bytes".to_string(),
        9_000,
    );
    assert_eq!(r, Err(ReputationError::VerificationFailed));
    assert_eq!(c.get_agent_reputation(&agent()).unwrap().score, 50);
    let unauthorized = c.import_cross_chain_reputation(
        &"stranger.near".to_string(),
        &agent(),
        "ethereum".to_string(),
        "proof-bytes".to_string(),
        9_000,
    );
    assert_eq!(unauthorized, Err(ReputationError::Unauthorized));
}

#[test]
fn applying_a_verified_snapshot_merges_scores() {
    let mut c = registered_contract();
    let snapshot = CrossChainReputation {
        score: 80,
        total_interactions: 10,
        successful_interactions: 9,
        specializations: vec!["analysis".to_string()],
        source_chain: "ethereum".to_string(),
        timestamp: 8_000,
    };
    // Existing agent at 50: the import averages to (50 + 80) / 2 = 65.
    let r = c.apply_verified_import(&agent(), &agent(), Some(snapshot), 9_000);
    assert_eq!(r, Ok(()));
    assert_eq!(c.get_agent_reputation(&agent()).unwrap().score, 65);
    // A fresh identity gets a record straight from the snapshot.
    let newcomer = "newcomer.near".to_string();
    let snapshot = CrossChainReputation {
        score: 70,
        total_interactions: 4,
        successful_interactions: 4,
        specializations: vec!["trading".to_string()],
        source_chain: "ethereum".to_string(),
        timestamp: 8_000,
    };
    c.apply_verified_import(&owner(), &newcomer, Some(snapshot), 9_500).unwrap();
    let view = c.get_agent_reputation(&newcomer).unwrap();
    assert_eq!(view.score, 70);
    assert_eq!(view.total_interactions, 4);
    assert_eq!(view.last_update, 9_500);
    // An overlarge snapshot score is rejected, fail-closed.
    let bogus = CrossChainReputation {
        score: 250,
        total_interactions: 1,
        successful_interactions: 0,
        specializations: vec![],
        source_chain: "ethereum".to_string(),
        timestamp: 8_000,
    };
    let r = c.apply_verified_import(&owner(), &newcomer, Some(bogus), 9_600);
    assert_eq!(r, Err(ReputationError::VerificationFailed));
    assert_eq!(c.get_agent_reputation(&newcomer).unwrap().score, 70);
}

#[test]
fn stake_changes_move_only_the_bonus() {
    let mut c = registered_contract();
    c.add_feedback(&owner(), &agent(), 3, vec_ratings(3), None, 2_000).unwrap();
    // Combined score without bonus: (60 + 100) / 2 = 80.
    assert_eq!(c.get_agent_reputation(&agent()).unwrap().score, 80);
    c.stake_tokens(&agent(), 500);
    c.update_reputation_on_stake_change(&agent(), 2_500);
    // A 5x stake adds the flat cap of 15.
    assert_eq!(c.get_agent_reputation(&agent()).unwrap().score, 95);
    let token = c.begin_stake_transfer(&agent(), 100);
    let r = c.on_stake_complete(&agent(), 100, TransferOutcome::Failure, token);
    assert_eq!(r, Err(ReputationError::TransferFailed));
}

fn vec_ratings(v: u8) -> agent_reputation::types::CategoryRatings {
    agent_reputation::types::CategoryRatings {
        accuracy: v,
        response_time: v,
        communication: v,
        problem_solving: v,
        ethics: v,
    }
}
