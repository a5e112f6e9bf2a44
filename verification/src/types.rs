//! Data model of the ledger: agent records, feedback, violations, trust
//! tiers, capability policies and the views handed out to callers.

use vstd::prelude::*;

verus! {

/// Five named sub-scores, each in `0..=5`, both as raw feedback and as a
/// stored rolling average.
#[derive(Clone, Copy, Debug, PartialEq, Eq, Structural)]
pub struct CategoryRatings {
    /// Accuracy of the agent's responses and actions.
    pub accuracy: u8,
    /// Speed of response.
    pub response_time: u8,
    /// Quality of communication.
    pub communication: u8,
    /// Problem-solving ability.
    pub problem_solving: u8,
    /// Ethical behaviour.
    pub ethics: u8,
}

/// All five sub-scores lie in the `0..=5` rating domain.
pub open spec fn ratings_wf(c: CategoryRatings) -> bool {
    &&& c.accuracy <= 5
    &&& c.response_time <= 5
    &&& c.communication <= 5
    &&& c.problem_solving <= 5
    &&& c.ethics <= 5
}

impl Default for CategoryRatings {
    /// The neutral, all-zero rating block used for fresh registrations.
    fn default() -> (c: CategoryRatings)
        ensures
            c == (CategoryRatings {
                accuracy: 0,
                response_time: 0,
                communication: 0,
                problem_solving: 0,
                ethics: 0,
            }),
    {
        CategoryRatings { accuracy: 0, response_time: 0, communication: 0, problem_solving: 0, ethics: 0 }
    }
}

/// One immutable feedback submission: who rated, the overall rating in
/// `0..=5`, the per-category ratings, an optional free-text message, and
/// the submission time.
#[derive(Clone, Debug)]
pub struct FeedbackEntry {
    /// Identity of the user who submitted the rating.
    pub user_id: String,
    /// Overall rating in `0..=5`.
    pub rating: u8,
    /// Per-category sub-ratings, each in `0..=5`.
    pub category_ratings: CategoryRatings,
    /// Optional free-text message.
    pub message: Option<String>,
    /// Time at which the feedback was submitted.
    pub timestamp: u64,
}

/// A feedback entry carries only ratings from the `0..=5` domain.
pub open spec fn entry_wf(e: FeedbackEntry) -> bool {
    &&& e.rating <= 5
    &&& ratings_wf(e.category_ratings)
}

/// Kinds of violation, from least to most severe.
#[derive(Clone, Copy, Debug, PartialEq, Eq, Structural)]
pub enum ViolationType {
    /// Minor errors or issues.
    MinorInfraction,
    /// Major errors or poor performance.
    MajorInfraction,
    /// Violation of terms of service.
    TermsViolation,
    /// Ethical violations.
    EthicalViolation,
    /// A security breach or attack.
    SecurityBreach,
}

/// One immutable violation report, with the penalty and slash actually
/// applied at the time it was recorded.
#[derive(Clone, Debug)]
pub struct ViolationRecord {
    /// The kind of violation reported.
    pub violation_type: ViolationType,
    /// Identity of the reporter.
    pub reporter: String,
    /// Free-text description of the violation.
    pub description: String,
    /// Optional reference to supporting evidence.
    pub evidence: Option<String>,
    /// Time at which the violation was reported.
    pub timestamp: u64,
    /// Reputation points deducted when the report was applied.
    pub penalty_applied: u32,
    /// Tokens removed from the agent's stake when the report was applied.
    pub tokens_slashed: u128,
}

/// The per-agent reputation record owned by the store.
#[derive(Clone, Debug)]
pub struct AgentReputation {
    /// Current aggregate reputation score in `0..=100`.
    pub score: u32,
    /// Total interactions handled; never decreases.
    pub total_interactions: u64,
    /// Interactions counted as successful; never exceeds the total.
    pub successful_interactions: u64,
    /// Append-only feedback history in submission order.
    pub feedback_history: Vec<FeedbackEntry>,
    /// Time of the most recent score recomputation.
    pub last_update: u64,
    /// Category tags declared at registration.
    pub specializations: Vec<String>,
    /// Last-computed per-category averages.
    pub category_scores: CategoryRatings,
    /// Append-only violation history.
    pub violation_history: Vec<ViolationRecord>,
}

/// Well-formedness of an agent record.
///
/// The score is bounded by 100, the success counter never exceeds the
/// total, the total stays within `u32::MAX` (each interaction is a
/// separate call, so the counter arithmetic below that bound can never
/// overflow), every stored feedback entry is validated and no newer than
/// the last update, and the stored category averages stay in the rating
/// domain.
pub open spec fn rec_wf(r: AgentReputation) -> bool {
    &&& r.score <= 100
    &&& r.successful_interactions <= r.total_interactions
    &&& r.total_interactions <= u32::MAX as u64
    &&& r.feedback_history@.len() <= r.total_interactions
    &&& forall|i: int|
        0 <= i < r.feedback_history@.len() ==> entry_wf(#[trigger] r.feedback_history@[i])
    &&& forall|i: int|
        0 <= i < r.feedback_history@.len() ==> (#[trigger] r.feedback_history@[i]).timestamp
            <= r.last_update
    &&& ratings_wf(r.category_scores)
}

/// Discrete trust tier, a pure function of the score; never stored.
#[derive(Clone, Copy, Debug, PartialEq, Eq, Structural)]
pub enum TrustLevel {
    /// Scores 0 to 30.
    Novice,
    /// Scores 31 to 50.
    Apprentice,
    /// Scores 51 to 75.
    Trusted,
    /// Scores 76 to 90.
    Expert,
    /// Scores 91 to 100.
    Master,
}

/// Capability policy derived from a trust tier; never stored.
#[derive(Clone, Copy, Debug, PartialEq, Eq, Structural)]
pub struct CapabilityLimits {
    /// Maximum complexity of tasks the agent can handle, 1 to 10.
    pub max_complexity: u8,
    /// Maximum value of a transaction the agent can handle.
    pub max_transaction_value: u128,
    /// Whether the agent may interact with critical systems.
    pub can_access_critical_systems: bool,
    /// Whether the agent may operate autonomously, without approval.
    pub can_operate_autonomously: bool,
    /// Whether the agent may delegate tasks to other agents.
    pub can_delegate: bool,
}

/// Summary view of an agent for read-only queries.
#[derive(Clone, Debug)]
pub struct AgentReputationView {
    /// Current aggregate score.
    pub score: u32,
    /// Total interactions handled.
    pub total_interactions: u64,
    /// Interactions counted as successful.
    pub successful_interactions: u64,
    /// Category tags declared at registration.
    pub specializations: Vec<String>,
    /// Time of the most recent score recomputation.
    pub last_update: u64,
}

/// Detailed view: the summary plus the derived trust tier and the stored
/// category averages.
#[derive(Clone, Debug)]
pub struct AgentReputationDetailedView {
    /// Current aggregate score.
    pub score: u32,
    /// Total interactions handled.
    pub total_interactions: u64,
    /// Interactions counted as successful.
    pub successful_interactions: u64,
    /// Category tags declared at registration.
    pub specializations: Vec<String>,
    /// Time of the most recent score recomputation.
    pub last_update: u64,
    /// Trust tier derived from the current score.
    pub trust_level: TrustLevel,
    /// Stored per-category averages.
    pub category_scores: CategoryRatings,
}

/// Lifecycle state of an intent handled by an agent.
#[derive(Clone, Copy, Debug, PartialEq, Eq, Structural)]
pub enum IntentStatus {
    /// The intent was recorded and not yet started.
    Created,
    /// The agent is working on the intent.
    InProgress,
    /// The intent finished successfully.
    Completed,
    /// The intent finished unsuccessfully.
    Failed,
}

/// One intent record: which agent handles what for which client.
#[derive(Clone, Debug)]
pub struct IntentData {
    /// Identifier of the intent.
    pub intent_id: String,
    /// The agent handling the intent.
    pub agent_id: String,
    /// The client that submitted the intent.
    pub client_id: String,
    /// Kind of the intent.
    pub intent_type: String,
    /// Free-form parameters of the intent.
    pub parameters: String,
    /// Current lifecycle state.
    pub status: IntentStatus,
    /// Time at which the intent was recorded.
    pub timestamp: u64,
}

/// A portable reputation snapshot, as exported to or imported from
/// another chain.
#[derive(Clone, Debug)]
pub struct CrossChainReputation {
    /// Aggregate score carried by the snapshot.
    pub score: u32,
    /// Total interactions carried by the snapshot.
    pub total_interactions: u64,
    /// Successful interactions carried by the snapshot.
    pub successful_interactions: u64,
    /// Declared specializations carried by the snapshot.
    pub specializations: Vec<String>,
    /// Name of the chain the snapshot came from.
    pub source_chain: String,
    /// Time at which the snapshot was taken.
    pub timestamp: u64,
}

/// An instruction to the external token ledger: move `amount` tokens of
/// the token contract to `receiver_id`. The core only decides transfers;
/// the host performs them and reports the outcome back.
#[derive(Clone, Debug)]
pub struct TransferRequest {
    /// The fungible-token contract to call.
    pub token_contract_id: String,
    /// The account that receives the tokens.
    pub receiver_id: String,
    /// The amount to transfer.
    pub amount: u128,
}

/// Outcome of an external token transfer, delivered by the host as a
/// separate completion event.
#[derive(Clone, Copy, Debug, PartialEq, Eq, Structural)]
pub enum TransferOutcome {
    /// The transfer went through.
    Success,
    /// The transfer was rejected or failed.
    Failure,
}

} // verus!
