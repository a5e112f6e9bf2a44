//! Trust and capability policy: a pure function from score to trust tier,
//! a fixed table from tier to capability limits, and the fail-closed
//! action check.

use vstd::prelude::*;

use crate::types::{CapabilityLimits, TrustLevel};

verus! {

/// The trust tier of a score: `0..=30` Novice, `31..=50` Apprentice,
/// `51..=75` Trusted, `76..=90` Expert, and everything above Master.
/// The five ranges partition `0..=100` exhaustively and without overlap.
pub open spec fn trust_level_of(score: u32) -> TrustLevel {
    if score <= 30 {
        TrustLevel::Novice
    } else if score <= 50 {
        TrustLevel::Apprentice
    } else if score <= 75 {
        TrustLevel::Trusted
    } else if score <= 90 {
        TrustLevel::Expert
    } else {
        TrustLevel::Master
    }
}

/// Computes the trust tier of a score.
pub fn trust_level_for_score(score: u32) -> (t: TrustLevel)
    ensures
        t == trust_level_of(score),
{
    if score <= 30 {
        TrustLevel::Novice
    } else if score <= 50 {
        TrustLevel::Apprentice
    } else if score <= 75 {
        TrustLevel::Trusted
    } else if score <= 90 {
        TrustLevel::Expert
    } else {
        TrustLevel::Master
    }
}

/// The fixed capability table: one row per trust tier. Transaction
/// ceilings are denominated in the token's smallest unit, at a token of
/// 18 decimals; a Master has no ceiling, represented as the largest
/// representable amount.
pub open spec fn capability_limits_of(level: TrustLevel) -> CapabilityLimits {
    match level {
        TrustLevel::Novice => CapabilityLimits {
            max_complexity: 3,
            max_transaction_value: 100_000_000_000_000_000_000u128,
            can_access_critical_systems: false,
            can_operate_autonomously: false,
            can_delegate: false,
        },
        TrustLevel::Apprentice => CapabilityLimits {
            max_complexity: 5,
            max_transaction_value: 500_000_000_000_000_000_000u128,
            can_access_critical_systems: false,
            can_operate_autonomously: true,
            can_delegate: false,
        },
        TrustLevel::Trusted => CapabilityLimits {
            max_complexity: 7,
            max_transaction_value: 2_000_000_000_000_000_000_000u128,
            can_access_critical_systems: false,
            can_operate_autonomously: true,
            can_delegate: true,
        },
        TrustLevel::Expert => CapabilityLimits {
            max_complexity: 9,
            max_transaction_value: 10_000_000_000_000_000_000_000u128,
            can_access_critical_systems: true,
            can_operate_autonomously: true,
            can_delegate: true,
        },
        TrustLevel::Master => CapabilityLimits {
            max_complexity: 10,
            max_transaction_value: u128::MAX,
            can_access_critical_systems: true,
            can_operate_autonomously: true,
            can_delegate: true,
        },
    }
}

/// Looks up the capability row of a trust tier.
pub fn capability_limits_for_level(level: TrustLevel) -> (c: CapabilityLimits)
    ensures
        c == capability_limits_of(level),
{
    match level {
        TrustLevel::Novice => CapabilityLimits {
            max_complexity: 3,
            max_transaction_value: 100_000_000_000_000_000_000u128,
            can_access_critical_systems: false,
            can_operate_autonomously: false,
            can_delegate: false,
        },
        TrustLevel::Apprentice => CapabilityLimits {
            max_complexity: 5,
            max_transaction_value: 500_000_000_000_000_000_000u128,
            can_access_critical_systems: false,
            can_operate_autonomously: true,
            can_delegate: false,
        },
        TrustLevel::Trusted => CapabilityLimits {
            max_complexity: 7,
            max_transaction_value: 2_000_000_000_000_000_000_000u128,
            can_access_critical_systems: false,
            can_operate_autonomously: true,
            can_delegate: true,
        },
        TrustLevel::Expert => CapabilityLimits {
            max_complexity: 9,
            max_transaction_value: 10_000_000_000_000_000_000_000u128,
            can_access_critical_systems: true,
            can_operate_autonomously: true,
            can_delegate: true,
        },
        TrustLevel::Master => CapabilityLimits {
            max_complexity: 10,
            max_transaction_value: u128::MAX,
            can_access_critical_systems: true,
            can_operate_autonomously: true,
            can_delegate: true,
        },
    }
}

/// Whether a capability row permits an action, fail-closed: an unknown
/// action kind resolves to `false`, and a transaction request without a
/// value resolves to `false`.
pub open spec fn action_allowed(
    limits: CapabilityLimits,
    action_type: Seq<char>,
    value: Option<u128>,
) -> bool {
    if action_type == "transaction"@ {
        match value {
            Some(v) => v <= limits.max_transaction_value,
            None => false,
        }
    } else if action_type == "critical_access"@ {
        limits.can_access_critical_systems
    } else if action_type == "autonomous_operation"@ {
        limits.can_operate_autonomously
    } else if action_type == "delegation"@ {
        limits.can_delegate
    } else {
        false
    }
}

/// Evaluates whether a capability row permits an action.
pub fn evaluate_action(limits: &CapabilityLimits, action_type: &String, value: Option<u128>) -> (r:
    bool)
    ensures
        r == action_allowed(*limits, action_type@, value),
{
    let transaction: String = "transaction".to_owned();
    let critical_access: String = "critical_access".to_owned();
    let autonomous_operation: String = "autonomous_operation".to_owned();
    let delegation: String = "delegation".to_owned();
    if *action_type == transaction {
        match value {
            Some(v) => v <= limits.max_transaction_value,
            None => false,
        }
    } else if *action_type == critical_access {
        limits.can_access_critical_systems
    } else if *action_type == autonomous_operation {
        limits.can_operate_autonomously
    } else if *action_type == delegation {
        limits.can_delegate
    } else {
        false
    }
}

} // verus!
