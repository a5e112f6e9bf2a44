//! The reputation ledger itself: an in-memory store of agent records and
//! stakes, and the gateway operations that authorize callers, validate
//! inputs and drive the scoring, policy and violation engines.
//!
//! Caller identity and the current time are explicit parameters of every
//! operation, so the ledger is a deterministic state machine; the host
//! supplies both and performs all I/O around it.

use vstd::prelude::*;

use crate::scoring::{
    recalculate_reputation,
    recalculate_reputation_with_categories,
    recomputed_categories,
    recomputed_score,
};
use crate::policy::{action_allowed, capability_limits_for_level, evaluate_action, trust_level_for_score, trust_level_of, capability_limits_of};
use crate::types::{
    entry_wf,
    ratings_wf,
    rec_wf,
    AgentReputation,
    CategoryRatings,
    FeedbackEntry,
    AgentReputationDetailedView,
    AgentReputationView,
    CapabilityLimits,
    CrossChainReputation,
    IntentData,
    IntentStatus,
    TransferOutcome,
    TransferRequest,
    TrustLevel,
    ViolationRecord,
    ViolationType,
};
use crate::ReputationError;

verus! {

/// One agent and its reputation record.
#[derive(Clone, Debug)]
pub struct AgentEntry {
    /// The agent's identity.
    pub agent_id: String,
    /// The agent's record.
    pub reputation: AgentReputation,
}

/// One account and its currently staked amount.
#[derive(Clone, Debug)]
pub struct StakeEntry {
    /// The staking account's identity.
    pub account_id: String,
    /// The staked amount.
    pub amount: u128,
}

/// The mapping that a sequence of agent entries represents; later
/// entries win, though well-formed stores keep identities unique.
pub open spec fn agents_map_of(s: Seq<AgentEntry>) -> Map<Seq<char>, AgentReputation>
    decreases s.len(),
{
    if s.len() == 0 {
        Map::empty()
    } else {
        agents_map_of(s.drop_last()).insert(s.last().agent_id@, s.last().reputation)
    }
}

/// The mapping that a sequence of stake entries represents.
pub open spec fn stakes_map_of(s: Seq<StakeEntry>) -> Map<Seq<char>, u128>
    decreases s.len(),
{
    if s.len() == 0 {
        Map::empty()
    } else {
        stakes_map_of(s.drop_last()).insert(s.last().account_id@, s.last().amount)
    }
}

/// No two agent entries share an identity.
pub open spec fn agent_ids_unique(s: Seq<AgentEntry>) -> bool {
    forall|i: int, j: int| 0 <= i < j < s.len() ==> s[i].agent_id@ != s[j].agent_id@
}

/// No two stake entries share an identity.
pub open spec fn stake_ids_unique(s: Seq<StakeEntry>) -> bool {
    forall|i: int, j: int| 0 <= i < j < s.len() ==> s[i].account_id@ != s[j].account_id@
}

/// An identity is in the agents map exactly when some entry carries it.
proof fn lemma_agents_map_membership(s: Seq<AgentEntry>, id: Seq<char>)
    ensures
        agents_map_of(s).contains_key(id) <==> exists|i: int|
            0 <= i < s.len() && s[i].agent_id@ == id,
    decreases s.len(),
{
    if s.len() > 0 {
        let prefix = s.drop_last();
        lemma_agents_map_membership(prefix, id);
        if s.last().agent_id@ == id {
            assert(s[s.len() - 1].agent_id@ == id);
        } else {
            if agents_map_of(s).contains_key(id) {
                let i = choose|i: int| 0 <= i < prefix.len() && prefix[i].agent_id@ == id;
                assert(s[i].agent_id@ == id);
            }
            if exists|i: int| 0 <= i < s.len() && s[i].agent_id@ == id {
                let i = choose|i: int| 0 <= i < s.len() && s[i].agent_id@ == id;
                assert(i < s.len() - 1);
                assert(prefix[i].agent_id@ == id);
            }
        }
    }
}

/// With unique identities, each entry is what the map stores for its
/// identity.
proof fn lemma_agents_map_index(s: Seq<AgentEntry>, i: int)
    requires
        agent_ids_unique(s),
        0 <= i < s.len(),
    ensures
        agents_map_of(s).contains_key(s[i].agent_id@),
        agents_map_of(s)[s[i].agent_id@] == s[i].reputation,
    decreases s.len(),
{
    if i < s.len() - 1 {
        let prefix = s.drop_last();
        assert(forall|k: int| 0 <= k < prefix.len() ==> prefix[k] == s[k]);
        lemma_agents_map_index(prefix, i);
        assert(s.last().agent_id@ != s[i].agent_id@);
    }
}

/// With unique identities, replacing the record of entry `i` updates the
/// map at exactly that identity.
proof fn lemma_agents_map_update(s: Seq<AgentEntry>, i: int, rec: AgentReputation)
    requires
        agent_ids_unique(s),
        0 <= i < s.len(),
    ensures
        agents_map_of(
            s.update(i, AgentEntry { agent_id: s[i].agent_id, reputation: rec }),
        ) == agents_map_of(s).insert(s[i].agent_id@, rec),
    decreases s.len(),
{
    let e2 = AgentEntry { agent_id: s[i].agent_id, reputation: rec };
    let s2 = s.update(i, e2);
    if i == s.len() - 1 {
        assert(s2.drop_last() =~= s.drop_last());
        assert(s2.last() == e2);
        assert(agents_map_of(s2) =~= agents_map_of(s).insert(s[i].agent_id@, rec));
    } else {
        let prefix = s.drop_last();
        assert(forall|k: int| 0 <= k < prefix.len() ==> prefix[k] == s[k]);
        lemma_agents_map_update(prefix, i, rec);
        assert(s2.drop_last() =~= prefix.update(i, e2));
        assert(s2.last() == s.last());
        assert(s.last().agent_id@ != s[i].agent_id@);
        assert(agents_map_of(s2) =~= agents_map_of(s).insert(s[i].agent_id@, rec));
    }
}

/// Appending an entry inserts its identity into the map.
proof fn lemma_agents_map_push(s: Seq<AgentEntry>, e: AgentEntry)
    ensures
        agents_map_of(s.push(e)) == agents_map_of(s).insert(e.agent_id@, e.reputation),
{
    assert(s.push(e).drop_last() =~= s);
}

/// An identity is in the stakes map exactly when some entry carries it.
proof fn lemma_stakes_map_membership(s: Seq<StakeEntry>, id: Seq<char>)
    ensures
        stakes_map_of(s).contains_key(id) <==> exists|i: int|
            0 <= i < s.len() && s[i].account_id@ == id,
    decreases s.len(),
{
    if s.len() > 0 {
        let prefix = s.drop_last();
        lemma_stakes_map_membership(prefix, id);
        if s.last().account_id@ == id {
            assert(s[s.len() - 1].account_id@ == id);
        } else {
            if stakes_map_of(s).contains_key(id) {
                let i = choose|i: int| 0 <= i < prefix.len() && prefix[i].account_id@ == id;
                assert(s[i].account_id@ == id);
            }
            if exists|i: int| 0 <= i < s.len() && s[i].account_id@ == id {
                let i = choose|i: int| 0 <= i < s.len() && s[i].account_id@ == id;
                assert(i < s.len() - 1);
                assert(prefix[i].account_id@ == id);
            }
        }
    }
}

/// With unique identities, each entry is what the map stores for its
/// identity.
proof fn lemma_stakes_map_index(s: Seq<StakeEntry>, i: int)
    requires
        stake_ids_unique(s),
        0 <= i < s.len(),
    ensures
        stakes_map_of(s).contains_key(s[i].account_id@),
        stakes_map_of(s)[s[i].account_id@] == s[i].amount,
    decreases s.len(),
{
    if i < s.len() - 1 {
        let prefix = s.drop_last();
        assert(forall|k: int| 0 <= k < prefix.len() ==> prefix[k] == s[k]);
        lemma_stakes_map_index(prefix, i);
        assert(s.last().account_id@ != s[i].account_id@);
    }
}

/// With unique identities, replacing the amount of entry `i` updates the
/// map at exactly that identity.
proof fn lemma_stakes_map_update(s: Seq<StakeEntry>, i: int, amount: u128)
    requires
        stake_ids_unique(s),
        0 <= i < s.len(),
    ensures
        stakes_map_of(
            s.update(i, StakeEntry { account_id: s[i].account_id, amount }),
        ) == stakes_map_of(s).insert(s[i].account_id@, amount),
    decreases s.len(),
{
    let e2 = StakeEntry { account_id: s[i].account_id, amount };
    let s2 = s.update(i, e2);
    if i == s.len() - 1 {
        assert(s2.drop_last() =~= s.drop_last());
        assert(s2.last() == e2);
        assert(stakes_map_of(s2) =~= stakes_map_of(s).insert(s[i].account_id@, amount));
    } else {
        let prefix = s.drop_last();
        assert(forall|k: int| 0 <= k < prefix.len() ==> prefix[k] == s[k]);
        lemma_stakes_map_update(prefix, i, amount);
        assert(s2.drop_last() =~= prefix.update(i, e2));
        assert(s2.last() == s.last());
        assert(s.last().account_id@ != s[i].account_id@);
        assert(stakes_map_of(s2) =~= stakes_map_of(s).insert(s[i].account_id@, amount));
    }
}

/// Appending an entry inserts its identity into the map.
proof fn lemma_stakes_map_push(s: Seq<StakeEntry>, e: StakeEntry)
    ensures
        stakes_map_of(s.push(e)) == stakes_map_of(s).insert(e.account_id@, e.amount),
{
    assert(s.push(e).drop_last() =~= s);
}

/// What an outstanding token transfer is for.
#[derive(Clone, Copy, Debug, PartialEq, Eq, Structural)]
pub enum PendingKind {
    /// A plain stake deposit.
    Deposit,
    /// A stake-boosted recovery deposit.
    Recovery,
}

/// One outstanding transfer request: issued when a transfer is
/// initiated, consumed by exactly one completion call. The token closes
/// the double-credit gap: a duplicate or forged completion finds no
/// unconsumed entry and is refused.
#[derive(Clone, Debug)]
pub struct PendingRequest {
    /// The correlation token handed to the host at initiation.
    pub request_id: u64,
    /// The account the transfer belongs to.
    pub account_id: String,
    /// The amount being transferred.
    pub amount: u128,
    /// What the transfer is for.
    pub kind: PendingKind,
    /// Whether an outcome has already been applied for this request.
    pub consumed: bool,
}

/// The mapping that a sequence of pending requests represents.
pub open spec fn pending_map_of(s: Seq<PendingRequest>) -> Map<u64, PendingRequest>
    decreases s.len(),
{
    if s.len() == 0 {
        Map::empty()
    } else {
        pending_map_of(s.drop_last()).insert(s.last().request_id, s.last())
    }
}

/// No two pending requests share a token.
pub open spec fn request_ids_unique(s: Seq<PendingRequest>) -> bool {
    forall|i: int, j: int| 0 <= i < j < s.len() ==> s[i].request_id != s[j].request_id
}

/// A token is in the pending map exactly when some entry carries it.
proof fn lemma_pending_map_membership(s: Seq<PendingRequest>, request_id: u64)
    ensures
        pending_map_of(s).contains_key(request_id) <==> exists|i: int|
            0 <= i < s.len() && s[i].request_id == request_id,
    decreases s.len(),
{
    if s.len() > 0 {
        let prefix = s.drop_last();
        lemma_pending_map_membership(prefix, request_id);
        if s.last().request_id == request_id {
            assert(s[s.len() - 1].request_id == request_id);
        } else {
            if pending_map_of(s).contains_key(request_id) {
                let i = choose|i: int| 0 <= i < prefix.len() && prefix[i].request_id == request_id;
                assert(s[i].request_id == request_id);
            }
            if exists|i: int| 0 <= i < s.len() && s[i].request_id == request_id {
                let i = choose|i: int| 0 <= i < s.len() && s[i].request_id == request_id;
                assert(i < s.len() - 1);
                assert(prefix[i].request_id == request_id);
            }
        }
    }
}

/// With unique tokens, each entry is what the map stores for its token.
proof fn lemma_pending_map_index(s: Seq<PendingRequest>, i: int)
    requires
        request_ids_unique(s),
        0 <= i < s.len(),
    ensures
        pending_map_of(s).contains_key(s[i].request_id),
        pending_map_of(s)[s[i].request_id] == s[i],
    decreases s.len(),
{
    if i < s.len() - 1 {
        let prefix = s.drop_last();
        assert(forall|k: int| 0 <= k < prefix.len() ==> prefix[k] == s[k]);
        lemma_pending_map_index(prefix, i);
        assert(s.last().request_id != s[i].request_id);
    }
}

/// With unique tokens, replacing entry `i` by one with the same token
/// updates the map at exactly that token.
proof fn lemma_pending_map_update(s: Seq<PendingRequest>, i: int, e2: PendingRequest)
    requires
        request_ids_unique(s),
        0 <= i < s.len(),
        e2.request_id == s[i].request_id,
    ensures
        pending_map_of(s.update(i, e2)) == pending_map_of(s).insert(e2.request_id, e2),
    decreases s.len(),
{
    let s2 = s.update(i, e2);
    if i == s.len() - 1 {
        assert(s2.drop_last() =~= s.drop_last());
        assert(s2.last() == e2);
        assert(pending_map_of(s2) =~= pending_map_of(s).insert(e2.request_id, e2));
    } else {
        let prefix = s.drop_last();
        assert(forall|k: int| 0 <= k < prefix.len() ==> prefix[k] == s[k]);
        lemma_pending_map_update(prefix, i, e2);
        assert(s2.drop_last() =~= prefix.update(i, e2));
        assert(s2.last() == s.last());
        assert(s.last().request_id != s[i].request_id);
        assert(pending_map_of(s2) =~= pending_map_of(s).insert(e2.request_id, e2));
    }
}

/// Appending an entry inserts its token into the map.
proof fn lemma_pending_map_push(s: Seq<PendingRequest>, e: PendingRequest)
    ensures
        pending_map_of(s.push(e)) == pending_map_of(s).insert(e.request_id, e),
{
    assert(s.push(e).drop_last() =~= s);
}

/// The reputation and trust ledger.
pub struct AgentReputationContract {
    /// The contract owner, who also acts as the governance body.
    pub owner_id: String,
    /// The fungible-token contract that stakes are held in.
    pub token_contract_id: String,
    /// One entry per registered agent.
    pub agent_reputations: Vec<AgentEntry>,
    /// One entry per staking account.
    pub agent_stakes: Vec<StakeEntry>,
    /// The minimum stake required for a stake bonus step; always at
    /// least 1, so stake arithmetic never divides by zero.
    pub min_stake_amount: u128,
    /// How long a feedback entry influences scoring, in the host's time
    /// unit.
    pub feedback_expiry_period: u64,
    /// The agent registry consulted by the host.
    pub near_ai_registry: String,
    /// The intent processor consulted by the host.
    pub intents_processor: String,
    /// Outstanding token transfers, awaiting exactly one outcome each;
    /// consumed entries are kept as an audit trail.
    pub pending_requests: Vec<PendingRequest>,
    /// The next correlation token to hand out; tokens are never reused.
    pub next_request_id: u64,
}

impl AgentReputationContract {
    /// The mapping from agent identity to record that the store
    /// represents.
    pub open spec fn agents(self) -> Map<Seq<char>, AgentReputation> {
        agents_map_of(self.agent_reputations@)
    }

    /// The mapping from account identity to staked amount.
    pub open spec fn stakes(self) -> Map<Seq<char>, u128> {
        stakes_map_of(self.agent_stakes@)
    }

    /// The staked amount of an account, zero when it never staked.
    pub open spec fn stake_of(self, id: Seq<char>) -> u128 {
        if self.stakes().contains_key(id) {
            self.stakes()[id]
        } else {
            0
        }
    }

    /// Whether an identity belongs to the governance body. The owner is
    /// its only member.
    pub open spec fn spec_is_governance_member(self, id: Seq<char>) -> bool {
        id == self.owner_id@
    }

    /// Whether an identity may report violations and restore
    /// reputation: the owner, or a governance member.
    pub open spec fn spec_is_authorized(self, id: Seq<char>) -> bool {
        id == self.owner_id@ || self.spec_is_governance_member(id)
    }

    /// The mapping from correlation token to pending transfer request.
    pub open spec fn pending(self) -> Map<u64, PendingRequest> {
        pending_map_of(self.pending_requests@)
    }

    /// Whether a completion call carries a token that is outstanding
    /// and matches what was initiated: same account, same amount, same
    /// purpose, outcome not yet applied.
    pub open spec fn spec_pending_matches(
        self,
        request_id: u64,
        id: Seq<char>,
        amount: u128,
        kind: PendingKind,
    ) -> bool {
        &&& self.pending().contains_key(request_id)
        &&& !self.pending()[request_id].consumed
        &&& self.pending()[request_id].account_id@ == id
        &&& self.pending()[request_id].amount == amount
        &&& self.pending()[request_id].kind == kind
    }

    /// Well-formedness of the whole ledger: identities are unique in
    /// both stores, the minimum stake is positive, every agent record
    /// is well-formed, and correlation tokens are unique and below the
    /// next one to be handed out.
    pub open spec fn wf(self) -> bool {
        &&& agent_ids_unique(self.agent_reputations@)
        &&& stake_ids_unique(self.agent_stakes@)
        &&& self.min_stake_amount >= 1
        &&& forall|i: int|
            0 <= i < self.agent_reputations@.len() ==> rec_wf(
                (#[trigger] self.agent_reputations@[i]).reputation,
            )
        &&& request_ids_unique(self.pending_requests@)
        &&& forall|i: int|
            0 <= i < self.pending_requests@.len() ==> (
            #[trigger] self.pending_requests@[i]).request_id < self.next_request_id
    }
}

/// The pending-transfer ledger is untouched: no request issued, none
/// consumed.
pub open spec fn same_pending(pre: AgentReputationContract, post: AgentReputationContract) -> bool {
    &&& post.pending_requests@ == pre.pending_requests@
    &&& post.next_request_id == pre.next_request_id
}

/// The configuration fields of the ledger are untouched: everything but
/// the stores and the pending-transfer ledger.
pub open spec fn same_config(pre: AgentReputationContract, post: AgentReputationContract) -> bool {
    &&& post.owner_id == pre.owner_id
    &&& post.token_contract_id == pre.token_contract_id
    &&& post.min_stake_amount == pre.min_stake_amount
    &&& post.feedback_expiry_period == pre.feedback_expiry_period
    &&& post.near_ai_registry == pre.near_ai_registry
    &&& post.intents_processor == pre.intents_processor
}

impl AgentReputationContract {
    /// Every record a well-formed ledger stores has a score in
    /// `0..=100` and a success counter bounded by the total. This is
    /// the standing invariant of the store; every operation's contract
    /// ends in a well-formed ledger again.
    pub proof fn lemma_wf_record_bounds(self, id: Seq<char>)
        requires
            self.wf(),
            self.agents().contains_key(id),
        ensures
            self.agents()[id].score <= 100,
            self.agents()[id].successful_interactions <= self.agents()[id].total_interactions,
    {
        lemma_agents_map_membership(self.agent_reputations@, id);
        let i = choose|i: int|
            0 <= i < self.agent_reputations@.len() && self.agent_reputations@[i].agent_id@ == id;
        lemma_agents_map_index(self.agent_reputations@, i);
    }

    /// Finds the index of an agent's entry.
    fn find_agent_index(&self, id: &String) -> (r: Option<usize>)
        requires
            agent_ids_unique(self.agent_reputations@),
        ensures
            match r {
                Some(i) => {
                    &&& i < self.agent_reputations@.len()
                    &&& self.agent_reputations@[i as int].agent_id@ == id@
                    &&& self.agents().contains_key(id@)
                    &&& self.agents()[id@] == self.agent_reputations@[i as int].reputation
                },
                None => !self.agents().contains_key(id@),
            },
    {
        let n = self.agent_reputations.len();
        let mut i: usize = 0;
        while i < n
            invariant
                agent_ids_unique(self.agent_reputations@),
                n == self.agent_reputations@.len(),
                i <= n,
                forall|k: int| 0 <= k < i ==> self.agent_reputations@[k].agent_id@ != id@,
            decreases n - i,
        {
            let entry = &self.agent_reputations[i];
            if entry.agent_id == *id {
                proof {
                    lemma_agents_map_index(self.agent_reputations@, i as int);
                }
                return Some(i);
            }
            i = i + 1;
        }
        proof {
            lemma_agents_map_membership(self.agent_reputations@, id@);
        }
        None
    }

    /// Finds the index of an account's stake entry.
    fn find_stake_index(&self, id: &String) -> (r: Option<usize>)
        requires
            stake_ids_unique(self.agent_stakes@),
        ensures
            match r {
                Some(i) => {
                    &&& i < self.agent_stakes@.len()
                    &&& self.agent_stakes@[i as int].account_id@ == id@
                    &&& self.stakes().contains_key(id@)
                    &&& self.stake_of(id@) == self.agent_stakes@[i as int].amount
                },
                None => !self.stakes().contains_key(id@) && self.stake_of(id@) == 0,
            },
    {
        let n = self.agent_stakes.len();
        let mut i: usize = 0;
        while i < n
            invariant
                stake_ids_unique(self.agent_stakes@),
                n == self.agent_stakes@.len(),
                i <= n,
                forall|k: int| 0 <= k < i ==> self.agent_stakes@[k].account_id@ != id@,
            decreases n - i,
        {
            let entry = &self.agent_stakes[i];
            if entry.account_id == *id {
                proof {
                    lemma_stakes_map_index(self.agent_stakes@, i as int);
                }
                return Some(i);
            }
            i = i + 1;
        }
        proof {
            lemma_stakes_map_membership(self.agent_stakes@, id@);
        }
        None
    }

    /// Reads the staked amount of an account, zero when it never
    /// staked.
    fn read_stake(&self, id: &String) -> (r: u128)
        requires
            stake_ids_unique(self.agent_stakes@),
        ensures
            r == self.stake_of(id@),
    {
        match self.find_stake_index(id) {
            Some(i) => self.agent_stakes[i].amount,
            None => 0,
        }
    }

    /// Replaces the record of the agent entry at index `i`.
    fn set_agent_record(&mut self, i: usize, rec: AgentReputation)
        requires
            agent_ids_unique(old(self).agent_reputations@),
            i < old(self).agent_reputations@.len(),
        ensures
            final(self).agents() == old(self).agents().insert(
                old(self).agent_reputations@[i as int].agent_id@,
                rec,
            ),
            final(self).agent_reputations@ == old(self).agent_reputations@.update(
                i as int,
                (AgentEntry { agent_id: old(self).agent_reputations@[i as int].agent_id, reputation: rec }),
            ),
            agent_ids_unique(final(self).agent_reputations@),
            final(self).agent_stakes@ == old(self).agent_stakes@,
            same_config(*old(self), *final(self)),
            same_pending(*old(self), *final(self)),
    {
        proof {
            lemma_agents_map_update(old(self).agent_reputations@, i as int, rec);
        }
        self.agent_reputations[i].reputation = rec;
        proof {
            let s = old(self).agent_reputations@;
            let s2 = self.agent_reputations@;
            assert(forall|k: int| 0 <= k < s2.len() ==> s2[k].agent_id@ == s[k].agent_id@);
        }
    }

    /// Writes the staked amount of an account, creating its entry when
    /// it never staked before.
    fn write_stake(&mut self, id: &String, amount: u128)
        requires
            stake_ids_unique(old(self).agent_stakes@),
        ensures
            final(self).stakes() == old(self).stakes().insert(id@, amount),
            final(self).stake_of(id@) == amount,
            forall|other: Seq<char>|
                other != id@ ==> final(self).stake_of(other) == old(self).stake_of(other),
            stake_ids_unique(final(self).agent_stakes@),
            final(self).agent_reputations@ == old(self).agent_reputations@,
            same_config(*old(self), *final(self)),
            same_pending(*old(self), *final(self)),
    {
        match self.find_stake_index(id) {
            Some(i) => {
                proof {
                    lemma_stakes_map_update(old(self).agent_stakes@, i as int, amount);
                }
                self.agent_stakes[i].amount = amount;
                proof {
                    let s = old(self).agent_stakes@;
                    let s2 = self.agent_stakes@;
                    assert(forall|k: int| 0 <= k < s2.len() ==> s2[k].account_id@ == s[k].account_id@);
                }
            },
            None => {
                proof {
                    lemma_stakes_map_membership(old(self).agent_stakes@, id@);
                }
                let entry = StakeEntry { account_id: id.clone(), amount };
                proof {
                    lemma_stakes_map_push(old(self).agent_stakes@, entry);
                }
                self.agent_stakes.push(entry);
                proof {
                    let s = old(self).agent_stakes@;
                    let s2 = self.agent_stakes@;
                    assert(forall|k: int| 0 <= k < s.len() ==> s2[k] == s[k]);
                    assert(stake_ids_unique(s2));
                }
            },
        }
    }
}

} // verus!

verus! {

/// A submission is valid when the overall rating and all five category
/// sub-ratings lie in `0..=5`.
pub open spec fn feedback_ratings_valid(rating: u8, category_ratings: CategoryRatings) -> bool {
    rating <= 5 && ratings_wf(category_ratings)
}

/// The record a fresh registration creates: the neutral score of 50,
/// zeroed counters and averages, empty histories, and the declared
/// specializations.
pub open spec fn is_initial_record(
    r: AgentReputation,
    specializations: Vec<String>,
    now: u64,
) -> bool {
    &&& r.score == 50
    &&& r.total_interactions == 0
    &&& r.successful_interactions == 0
    &&& r.feedback_history@ == Seq::<FeedbackEntry>::empty()
    &&& r.last_update == now
    &&& r.specializations == specializations
    &&& r.category_scores == (CategoryRatings {
        accuracy: 0,
        response_time: 0,
        communication: 0,
        problem_solving: 0,
        ethics: 0,
    })
    &&& r.violation_history@.len() == 0
}

impl AgentReputationContract {
    /// Creates an empty ledger. The feedback expiry window defaults to
    /// 30 days in nanoseconds, the host's time unit.
    pub fn new(owner_id: String, token_contract_id: String, min_stake_amount: u128) -> (c:
        AgentReputationContract)
        requires
            min_stake_amount >= 1,
        ensures
            c.wf(),
            c.owner_id == owner_id,
            c.token_contract_id == token_contract_id,
            c.min_stake_amount == min_stake_amount,
            c.feedback_expiry_period == 2_592_000_000_000_000u64,
            c.agents() == Map::<Seq<char>, AgentReputation>::empty(),
            c.stakes() == Map::<Seq<char>, u128>::empty(),
            c.pending() == Map::<u64, PendingRequest>::empty(),
            c.next_request_id == 0,
    {
        AgentReputationContract {
            owner_id,
            token_contract_id,
            agent_reputations: Vec::new(),
            agent_stakes: Vec::new(),
            min_stake_amount,
            feedback_expiry_period: 30 * 24 * 60 * 60 * 1_000_000_000,
            near_ai_registry: String::new(),
            intents_processor: String::new(),
            pending_requests: Vec::new(),
            next_request_id: 0,
        }
    }

    /// Registers a new agent with a neutral record. Only the agent
    /// itself may register itself; registering an already-registered
    /// agent fails with `AlreadyRegistered` and changes nothing.
    pub fn register_agent(
        &mut self,
        caller: &String,
        agent_id: &String,
        specializations: Vec<String>,
        now: u64,
    ) -> (r: Result<(), ReputationError>)
        requires
            old(self).wf(),
        ensures
            final(self).wf(),
            same_config(*old(self), *final(self)),
            same_pending(*old(self), *final(self)),
            final(self).agent_stakes@ == old(self).agent_stakes@,
            caller@ != agent_id@ ==> r == Err::<(), ReputationError>(ReputationError::Unauthorized)
                && *final(self) == *old(self),
            caller@ == agent_id@ && old(self).agents().contains_key(agent_id@) ==> r == Err::<
                (),
                ReputationError,
            >(ReputationError::AlreadyRegistered) && *final(self) == *old(self),
            caller@ == agent_id@ && !old(self).agents().contains_key(agent_id@) ==> {
                &&& r == Ok::<(), ReputationError>(())
                &&& final(self).agents().contains_key(agent_id@)
                &&& is_initial_record(final(self).agents()[agent_id@], specializations, now)
                &&& final(self).agents() == old(self).agents().insert(
                    agent_id@,
                    final(self).agents()[agent_id@],
                )
            },
    {
        if !(*caller == *agent_id) {
            return Err(ReputationError::Unauthorized);
        }
        match self.find_agent_index(agent_id) {
            Some(_) => Err(ReputationError::AlreadyRegistered),
            None => {
                let record = AgentReputation {
                    score: 50,
                    total_interactions: 0,
                    successful_interactions: 0,
                    feedback_history: Vec::new(),
                    last_update: now,
                    specializations,
                    category_scores: CategoryRatings {
                        accuracy: 0,
                        response_time: 0,
                        communication: 0,
                        problem_solving: 0,
                        ethics: 0,
                    },
                    violation_history: Vec::new(),
                };
                let entry = AgentEntry { agent_id: agent_id.clone(), reputation: record };
                proof {
                    lemma_agents_map_membership(self.agent_reputations@, agent_id@);
                    lemma_agents_map_push(self.agent_reputations@, entry);
                }
                self.agent_reputations.push(entry);
                proof {
                    let s = old(self).agent_reputations@;
                    let s2 = self.agent_reputations@;
                    assert(forall|k: int| 0 <= k < s.len() ==> s2[k] == s[k]);
                    assert(agent_ids_unique(s2));
                }
                Ok(())
            },
        }
    }

    /// Ingests one feedback submission for an agent: validates the
    /// ratings, appends the entry, advances the interaction counters
    /// (a rating of 3 or better counts as a success), recomputes score
    /// and category averages, and stamps the update time.
    ///
    /// Feedback may come from any identity; only registration of the
    /// rated agent is required. The interaction counter must have room,
    /// and time must not run backwards relative to the record.
    pub fn add_feedback(
        &mut self,
        user_id: &String,
        agent_id: &String,
        rating: u8,
        category_ratings: CategoryRatings,
        message: Option<String>,
        now: u64,
    ) -> (r: Result<(), ReputationError>)
        requires
            old(self).wf(),
            old(self).agents().contains_key(agent_id@) ==> old(self).agents()[agent_id@]
                .total_interactions < u32::MAX as u64,
            old(self).agents().contains_key(agent_id@) ==> old(self).agents()[agent_id@].last_update
                <= now,
        ensures
            final(self).wf(),
            same_config(*old(self), *final(self)),
            same_pending(*old(self), *final(self)),
            final(self).agent_stakes@ == old(self).agent_stakes@,
            !old(self).agents().contains_key(agent_id@) ==> r == Err::<(), ReputationError>(
                ReputationError::NotRegistered,
            ) && *final(self) == *old(self),
            old(self).agents().contains_key(agent_id@) && !feedback_ratings_valid(
                rating,
                category_ratings,
            ) ==> r == Err::<(), ReputationError>(ReputationError::InvalidRating) && *final(self)
                == *old(self),
            old(self).agents().contains_key(agent_id@) && feedback_ratings_valid(
                rating,
                category_ratings,
            ) ==> {
                let old_rec = old(self).agents()[agent_id@];
                let new_rec = final(self).agents()[agent_id@];
                let entry = FeedbackEntry {
                    user_id: *user_id,
                    rating,
                    category_ratings,
                    message,
                    timestamp: now,
                };
                let new_history = old_rec.feedback_history@.push(entry);
                let new_total = (old_rec.total_interactions + 1) as u64;
                let new_successful = (old_rec.successful_interactions + (
                    if rating >= 3 {
                        1u64
                    } else {
                        0u64
                    }
                )) as u64;
                &&& r == Ok::<(), ReputationError>(())
                &&& final(self).agents().contains_key(agent_id@)
                &&& new_rec.feedback_history@ == new_history
                &&& new_rec.total_interactions == new_total
                &&& new_rec.successful_interactions == new_successful
                &&& new_rec.score as int == recomputed_score(
                    new_history,
                    new_total,
                    new_successful,
                    old_rec.score,
                    now,
                    old(self).feedback_expiry_period,
                    old(self).stake_of(agent_id@),
                    old(self).min_stake_amount,
                )
                &&& new_rec.category_scores == recomputed_categories(
                    new_history,
                    new_total,
                    old_rec.category_scores,
                    now,
                    old(self).feedback_expiry_period,
                )
                &&& new_rec.last_update == now
                &&& new_rec.specializations == old_rec.specializations
                &&& new_rec.violation_history@ == old_rec.violation_history@
                &&& final(self).agents() == old(self).agents().insert(agent_id@, new_rec)
            },
    {
        let i = match self.find_agent_index(agent_id) {
            None => {
                return Err(ReputationError::NotRegistered);
            },
            Some(i) => i,
        };
        if rating > 5 || category_ratings.accuracy > 5 || category_ratings.response_time > 5
            || category_ratings.communication > 5 || category_ratings.problem_solving > 5
            || category_ratings.ethics > 5 {
            return Err(ReputationError::InvalidRating);
        }
        let stake = self.read_stake(agent_id);
        let entry = FeedbackEntry {
            user_id: user_id.clone(),
            rating,
            category_ratings,
            message,
            timestamp: now,
        };
        self.agent_reputations[i].reputation.feedback_history.push(entry);
        self.agent_reputations[i].reputation.last_update = now;
        let total = self.agent_reputations[i].reputation.total_interactions;
        self.agent_reputations[i].reputation.total_interactions = total + 1;
        if rating >= 3 {
            let successful = self.agent_reputations[i].reputation.successful_interactions;
            self.agent_reputations[i].reputation.successful_interactions = successful + 1;
        }
        let (new_score, new_categories) = recalculate_reputation_with_categories(
            &self.agent_reputations[i].reputation,
            now,
            self.feedback_expiry_period,
            stake,
            self.min_stake_amount,
        );
        self.agent_reputations[i].reputation.score = new_score;
        self.agent_reputations[i].reputation.category_scores = new_categories;
        proof {
            let s = old(self).agent_reputations@;
            let s2 = self.agent_reputations@;
            let new_rec = s2[i as int].reputation;
            assert(s2 =~= s.update(
                i as int,
                AgentEntry { agent_id: s[i as int].agent_id, reputation: new_rec },
            ));
            lemma_agents_map_update(s, i as int, new_rec);
            assert(forall|k: int| 0 <= k < s2.len() ==> s2[k].agent_id@ == s[k].agent_id@);
        }
        Ok(())
    }

    /// Credits a stake deposit to the caller's stake ledger entry. The
    /// token transfer itself is the host's affair; the ledger only
    /// tracks the amount.
    pub fn stake_tokens(&mut self, caller: &String, amount: u128)
        requires
            old(self).wf(),
            old(self).stake_of(caller@) + amount <= u128::MAX,
        ensures
            final(self).wf(),
            same_config(*old(self), *final(self)),
            same_pending(*old(self), *final(self)),
            final(self).agent_reputations@ == old(self).agent_reputations@,
            final(self).stake_of(caller@) == old(self).stake_of(caller@) + amount,
            forall|other: Seq<char>|
                other != caller@ ==> final(self).stake_of(other) == old(self).stake_of(other),
    {
        let current = self.read_stake(caller);
        self.write_stake(caller, current + amount);
    }

    /// Recomputes an agent's aggregate score after its stake changed;
    /// unregistered identities are ignored. Category averages are
    /// deliberately left as they are: only the stake bonus moved.
    pub fn update_reputation_on_stake_change(&mut self, agent_id: &String, now: u64)
        requires
            old(self).wf(),
            old(self).agents().contains_key(agent_id@) ==> old(self).agents()[agent_id@].last_update
                <= now,
        ensures
            final(self).wf(),
            same_config(*old(self), *final(self)),
            same_pending(*old(self), *final(self)),
            final(self).agent_stakes@ == old(self).agent_stakes@,
            !old(self).agents().contains_key(agent_id@) ==> *final(self) == *old(self),
            old(self).agents().contains_key(agent_id@) ==> {
                let old_rec = old(self).agents()[agent_id@];
                let new_rec = final(self).agents()[agent_id@];
                &&& new_rec.score as int == recomputed_score(
                    old_rec.feedback_history@,
                    old_rec.total_interactions,
                    old_rec.successful_interactions,
                    old_rec.score,
                    now,
                    old(self).feedback_expiry_period,
                    old(self).stake_of(agent_id@),
                    old(self).min_stake_amount,
                )
                &&& new_rec == (AgentReputation { score: new_rec.score, ..old_rec })
                &&& final(self).agents() == old(self).agents().insert(agent_id@, new_rec)
            },
    {
        let i = match self.find_agent_index(agent_id) {
            None => {
                return ;
            },
            Some(i) => i,
        };
        let stake = self.read_stake(agent_id);
        let new_score = recalculate_reputation(
            &self.agent_reputations[i].reputation,
            now,
            self.feedback_expiry_period,
            stake,
            self.min_stake_amount,
        );
        self.agent_reputations[i].reputation.score = new_score;
        proof {
            let s = old(self).agent_reputations@;
            let s2 = self.agent_reputations@;
            let new_rec = s2[i as int].reputation;
            assert(s2 =~= s.update(
                i as int,
                AgentEntry { agent_id: s[i as int].agent_id, reputation: new_rec },
            ));
            lemma_agents_map_update(s, i as int, new_rec);
            assert(forall|k: int| 0 <= k < s2.len() ==> s2[k].agent_id@ == s[k].agent_id@);
        }
    }
}

} // verus!

verus! {

/// The fixed penalty table: reputation points deducted and the percent
/// of the stake slashed, per violation kind.
pub open spec fn violation_penalty_of(violation_type: ViolationType) -> (u32, u128) {
    match violation_type {
        ViolationType::MinorInfraction => (5, 1),
        ViolationType::MajorInfraction => (15, 5),
        ViolationType::TermsViolation => (25, 10),
        ViolationType::EthicalViolation => (40, 25),
        ViolationType::SecurityBreach => (60, 50),
    }
}

/// Looks up the penalty row of a violation kind.
pub fn violation_penalty(violation_type: ViolationType) -> (r: (u32, u128))
    ensures
        r == violation_penalty_of(violation_type),
{
    match violation_type {
        ViolationType::MinorInfraction => (5, 1),
        ViolationType::MajorInfraction => (15, 5),
        ViolationType::TermsViolation => (25, 10),
        ViolationType::EthicalViolation => (40, 25),
        ViolationType::SecurityBreach => (60, 50),
    }
}

impl AgentReputationContract {
    /// Whether an account belongs to the governance body; the owner is
    /// its only member.
    pub fn is_governance_member(&self, account_id: &String) -> (r: bool)
        ensures
            r == self.spec_is_governance_member(account_id@),
    {
        *account_id == self.owner_id
    }

    /// Removes slashed tokens from an agent's stake; the amount never
    /// exceeds the current stake, so the ledger never goes below zero.
    fn execute_slashing(&mut self, agent_id: &String, amount: u128)
        requires
            stake_ids_unique(old(self).agent_stakes@),
            amount <= old(self).stake_of(agent_id@),
        ensures
            final(self).stake_of(agent_id@) == old(self).stake_of(agent_id@) - amount,
            forall|other: Seq<char>|
                other != agent_id@ ==> final(self).stake_of(other) == old(self).stake_of(other),
            stake_ids_unique(final(self).agent_stakes@),
            final(self).agent_reputations@ == old(self).agent_reputations@,
            same_config(*old(self), *final(self)),
            same_pending(*old(self), *final(self)),
    {
        let current = self.read_stake(agent_id);
        if current >= amount {
            self.write_stake(agent_id, current - amount);
        }
    }

    /// Applies a violation report: only the owner or a governance
    /// member may report. The agent's score drops by the penalty of the
    /// violation kind, floored at zero; the configured percentage of
    /// its stake is slashed, never below zero; and an immutable record
    /// is appended to its violation history, capturing the points
    /// actually deducted (less than the table penalty when the zero
    /// floor truncates it) and the slash actually applied.
    pub fn report_violation(
        &mut self,
        reporter: &String,
        agent_id: &String,
        violation_type: ViolationType,
        description: String,
        evidence: Option<String>,
        now: u64,
    ) -> (r: Result<(), ReputationError>)
        requires
            old(self).wf(),
            old(self).spec_is_authorized(reporter@) && old(self).agents().contains_key(agent_id@)
                ==> old(self).stake_of(agent_id@) <= u128::MAX / 100,
        ensures
            final(self).wf(),
            same_config(*old(self), *final(self)),
            same_pending(*old(self), *final(self)),
            !old(self).spec_is_authorized(reporter@) ==> r == Err::<(), ReputationError>(
                ReputationError::Unauthorized,
            ) && *final(self) == *old(self),
            old(self).spec_is_authorized(reporter@) && !old(self).agents().contains_key(agent_id@)
                ==> r == Err::<(), ReputationError>(ReputationError::NotRegistered) && *final(self)
                == *old(self),
            old(self).spec_is_authorized(reporter@) && old(self).agents().contains_key(agent_id@)
                ==> {
                let penalty = violation_penalty_of(violation_type).0;
                let slash_percent = violation_penalty_of(violation_type).1;
                let old_rec = old(self).agents()[agent_id@];
                let new_rec = final(self).agents()[agent_id@];
                let old_stake = old(self).stake_of(agent_id@);
                let slashed = (old_stake * slash_percent / 100) as u128;
                let deducted = (if old_rec.score >= penalty {
                    penalty
                } else {
                    old_rec.score
                });
                &&& r == Ok::<(), ReputationError>(())
                &&& new_rec.score == old_rec.score - deducted
                &&& new_rec.violation_history@ == old_rec.violation_history@.push(
                    ViolationRecord {
                        violation_type,
                        reporter: *reporter,
                        description,
                        evidence,
                        timestamp: now,
                        penalty_applied: deducted,
                        tokens_slashed: slashed,
                    },
                )
                &&& new_rec.feedback_history@ == old_rec.feedback_history@
                &&& new_rec.total_interactions == old_rec.total_interactions
                &&& new_rec.successful_interactions == old_rec.successful_interactions
                &&& new_rec.last_update == old_rec.last_update
                &&& new_rec.specializations == old_rec.specializations
                &&& new_rec.category_scores == old_rec.category_scores
                &&& final(self).agents() == old(self).agents().insert(agent_id@, new_rec)
                &&& final(self).stake_of(agent_id@) == old_stake - slashed
                &&& forall|other: Seq<char>|
                    other != agent_id@ ==> final(self).stake_of(other) == old(self).stake_of(other)
            },
    {
        let is_owner = *reporter == self.owner_id;
        let is_governance = self.is_governance_member(reporter);
        if !(is_owner || is_governance) {
            return Err(ReputationError::Unauthorized);
        }
        let i = match self.find_agent_index(agent_id) {
            None => {
                return Err(ReputationError::NotRegistered);
            },
            Some(i) => i,
        };
        let (penalty, slash_percent) = violation_penalty(violation_type);
        let score = self.agent_reputations[i].reputation.score;
        let applied_penalty = if score >= penalty {
            penalty
        } else {
            score
        };
        self.agent_reputations[i].reputation.score = score - applied_penalty;
        let stake = self.read_stake(agent_id);
        proof {
            assert(stake * slash_percent <= u128::MAX) by (nonlinear_arith)
                requires
                    stake <= u128::MAX / 100,
                    slash_percent <= 50,
            ;
            assert(stake * slash_percent / 100 <= stake) by (nonlinear_arith)
                requires
                    slash_percent <= 50,
            ;
        }
        let tokens_to_slash = stake * slash_percent / 100;
        let violation = ViolationRecord {
            violation_type,
            reporter: reporter.clone(),
            description,
            evidence,
            timestamp: now,
            penalty_applied: applied_penalty,
            tokens_slashed: tokens_to_slash,
        };
        self.agent_reputations[i].reputation.violation_history.push(violation);
        proof {
            let s = old(self).agent_reputations@;
            let s2 = self.agent_reputations@;
            let new_rec = s2[i as int].reputation;
            assert(s2 =~= s.update(
                i as int,
                AgentEntry { agent_id: s[i as int].agent_id, reputation: new_rec },
            ));
            lemma_agents_map_update(s, i as int, new_rec);
            assert(forall|k: int| 0 <= k < s2.len() ==> s2[k].agent_id@ == s[k].agent_id@);
        }
        if tokens_to_slash > 0 {
            self.execute_slashing(agent_id, tokens_to_slash);
        }
        Ok(())
    }

    /// Records an agent's intent to appeal one of its violations. The
    /// referenced index must exist; adjudication is a governance
    /// concern outside the ledger, so no state changes here — an
    /// overturned violation is compensated through restoration.
    pub fn appeal_violation(
        &mut self,
        caller: &String,
        violation_index: usize,
        justification: String,
    ) -> (r: Result<(), ReputationError>)
        requires
            old(self).wf(),
        ensures
            final(self).wf(),
            *final(self) == *old(self),
            !old(self).agents().contains_key(caller@) ==> r == Err::<(), ReputationError>(
                ReputationError::NotRegistered,
            ),
            old(self).agents().contains_key(caller@) && violation_index >= old(self).agents()[caller@].violation_history@.len() ==> r == Err::<(), ReputationError>(
                ReputationError::InvalidIndex,
            ),
            old(self).agents().contains_key(caller@) && violation_index < old(self).agents()[caller@].violation_history@.len() ==> r == Ok::<(), ReputationError>(()),
    {
        let i = match self.find_agent_index(caller) {
            None => {
                return Err(ReputationError::NotRegistered);
            },
            Some(i) => i,
        };
        if violation_index >= self.agent_reputations[i].reputation.violation_history.len() {
            return Err(ReputationError::InvalidIndex);
        }
        Ok(())
    }

    /// Restores reputation points to an agent, capped at 100. Only the
    /// owner or a governance member may restore.
    pub fn restore_reputation(
        &mut self,
        caller: &String,
        agent_id: &String,
        points: u32,
        reason: String,
    ) -> (r: Result<(), ReputationError>)
        requires
            old(self).wf(),
        ensures
            final(self).wf(),
            same_config(*old(self), *final(self)),
            same_pending(*old(self), *final(self)),
            final(self).agent_stakes@ == old(self).agent_stakes@,
            !old(self).spec_is_authorized(caller@) ==> r == Err::<(), ReputationError>(
                ReputationError::Unauthorized,
            ) && *final(self) == *old(self),
            old(self).spec_is_authorized(caller@) && !old(self).agents().contains_key(agent_id@)
                ==> r == Err::<(), ReputationError>(ReputationError::NotRegistered) && *final(self)
                == *old(self),
            old(self).spec_is_authorized(caller@) && old(self).agents().contains_key(agent_id@)
                ==> {
                let old_rec = old(self).agents()[agent_id@];
                let new_rec = final(self).agents()[agent_id@];
                &&& r == Ok::<(), ReputationError>(())
                &&& new_rec.score == (if old_rec.score + points > 100 {
                    100u32
                } else {
                    (old_rec.score + points) as u32
                })
                &&& new_rec == (AgentReputation { score: new_rec.score, ..old_rec })
                &&& final(self).agents() == old(self).agents().insert(agent_id@, new_rec)
            },
    {
        let is_owner = *caller == self.owner_id;
        let is_governance = self.is_governance_member(caller);
        if !(is_owner || is_governance) {
            return Err(ReputationError::Unauthorized);
        }
        let i = match self.find_agent_index(agent_id) {
            None => {
                return Err(ReputationError::NotRegistered);
            },
            Some(i) => i,
        };
        proof {
            assert(rec_wf(old(self).agent_reputations@[i as int].reputation));
        }
        let score = self.agent_reputations[i].reputation.score;
        let new_score = if points > 100 - score {
            100
        } else {
            score + points
        };
        self.agent_reputations[i].reputation.score = new_score;
        proof {
            let s = old(self).agent_reputations@;
            let s2 = self.agent_reputations@;
            let new_rec = s2[i as int].reputation;
            assert(s2 =~= s.update(
                i as int,
                AgentEntry { agent_id: s[i as int].agent_id, reputation: new_rec },
            ));
            lemma_agents_map_update(s, i as int, new_rec);
            assert(forall|k: int| 0 <= k < s2.len() ==> s2[k].agent_id@ == s[k].agent_id@);
        }
        Ok(())
    }

    /// Grants the fixed remediation recovery of 5 points, capped at
    /// 100, to the calling agent. Verifying the completion proof is the
    /// host's collaborator concern and is treated as already satisfied.
    pub fn complete_remediation_task(
        &mut self,
        caller: &String,
        task_id: String,
        task_proof: String,
    ) -> (r: Result<(), ReputationError>)
        requires
            old(self).wf(),
        ensures
            final(self).wf(),
            same_config(*old(self), *final(self)),
            same_pending(*old(self), *final(self)),
            final(self).agent_stakes@ == old(self).agent_stakes@,
            !old(self).agents().contains_key(caller@) ==> r == Err::<(), ReputationError>(
                ReputationError::NotRegistered,
            ) && *final(self) == *old(self),
            old(self).agents().contains_key(caller@) ==> {
                let old_rec = old(self).agents()[caller@];
                let new_rec = final(self).agents()[caller@];
                &&& r == Ok::<(), ReputationError>(())
                &&& new_rec.score == (if old_rec.score + 5 > 100 {
                    100u32
                } else {
                    (old_rec.score + 5) as u32
                })
                &&& new_rec == (AgentReputation { score: new_rec.score, ..old_rec })
                &&& final(self).agents() == old(self).agents().insert(caller@, new_rec)
            },
    {
        let i = match self.find_agent_index(caller) {
            None => {
                return Err(ReputationError::NotRegistered);
            },
            Some(i) => i,
        };
        proof {
            assert(rec_wf(old(self).agent_reputations@[i as int].reputation));
        }
        let recovery_points: u32 = 5;
        let score = self.agent_reputations[i].reputation.score;
        let new_score = if recovery_points > 100 - score {
            100
        } else {
            score + recovery_points
        };
        self.agent_reputations[i].reputation.score = new_score;
        proof {
            let s = old(self).agent_reputations@;
            let s2 = self.agent_reputations@;
            let new_rec = s2[i as int].reputation;
            assert(s2 =~= s.update(
                i as int,
                AgentEntry { agent_id: s[i as int].agent_id, reputation: new_rec },
            ));
            lemma_agents_map_update(s, i as int, new_rec);
            assert(forall|k: int| 0 <= k < s2.len() ==> s2[k].agent_id@ == s[k].agent_id@);
        }
        Ok(())
    }
}

} // verus!

verus! {

impl AgentReputationContract {
    /// Finds the index of a pending request by its token.
    fn find_pending_index(&self, request_id: u64) -> (r: Option<usize>)
        requires
            request_ids_unique(self.pending_requests@),
        ensures
            match r {
                Some(i) => {
                    &&& i < self.pending_requests@.len()
                    &&& self.pending_requests@[i as int].request_id == request_id
                    &&& self.pending().contains_key(request_id)
                    &&& self.pending()[request_id] == self.pending_requests@[i as int]
                },
                None => !self.pending().contains_key(request_id),
            },
    {
        let n = self.pending_requests.len();
        let mut i: usize = 0;
        while i < n
            invariant
                request_ids_unique(self.pending_requests@),
                n == self.pending_requests@.len(),
                i <= n,
                forall|k: int| 0 <= k < i ==> self.pending_requests@[k].request_id != request_id,
            decreases n - i,
        {
            if self.pending_requests[i].request_id == request_id {
                proof {
                    lemma_pending_map_index(self.pending_requests@, i as int);
                }
                return Some(i);
            }
            i = i + 1;
        }
        proof {
            lemma_pending_map_membership(self.pending_requests@, request_id);
        }
        None
    }

    /// Issues a fresh correlation token for a transfer about to be
    /// initiated and records it as outstanding.
    fn register_pending(&mut self, account_id: &String, amount: u128, kind: PendingKind) -> (token:
        u64)
        requires
            old(self).wf(),
            old(self).next_request_id < u64::MAX,
        ensures
            final(self).wf(),
            same_config(*old(self), *final(self)),
            final(self).agent_reputations@ == old(self).agent_reputations@,
            final(self).agent_stakes@ == old(self).agent_stakes@,
            token == old(self).next_request_id,
            final(self).next_request_id == old(self).next_request_id + 1,
            final(self).pending() == old(self).pending().insert(
                token,
                (PendingRequest {
                    request_id: token,
                    account_id: *account_id,
                    amount,
                    kind,
                    consumed: false,
                }),
            ),
    {
        let token = self.next_request_id;
        let entry = PendingRequest {
            request_id: token,
            account_id: account_id.clone(),
            amount,
            kind,
            consumed: false,
        };
        proof {
            lemma_pending_map_push(self.pending_requests@, entry);
        }
        self.pending_requests.push(entry);
        self.next_request_id = token + 1;
        proof {
            let s = old(self).pending_requests@;
            let s2 = self.pending_requests@;
            assert(forall|k: int| 0 <= k < s.len() ==> s2[k] == s[k]);
            assert(request_ids_unique(s2));
        }
        token
    }

    /// Consumes the pending request with this token, provided it is
    /// outstanding and matches the completion call exactly; reports
    /// whether it did. A token that was already consumed, or that was
    /// issued for another account, amount or purpose, consumes nothing.
    fn consume_matching_pending(
        &mut self,
        request_id: u64,
        account_id: &String,
        amount: u128,
        kind: PendingKind,
    ) -> (ok: bool)
        requires
            old(self).wf(),
        ensures
            final(self).wf(),
            same_config(*old(self), *final(self)),
            final(self).agent_reputations@ == old(self).agent_reputations@,
            final(self).agent_stakes@ == old(self).agent_stakes@,
            final(self).next_request_id == old(self).next_request_id,
            ok == old(self).spec_pending_matches(request_id, account_id@, amount, kind),
            !ok ==> *final(self) == *old(self),
            ok ==> final(self).pending() == old(self).pending().insert(
                request_id,
                (PendingRequest { consumed: true, ..old(self).pending()[request_id] }),
            ),
    {
        let i = match self.find_pending_index(request_id) {
            None => {
                return false;
            },
            Some(i) => i,
        };
        let entry_matches = {
            let e = &self.pending_requests[i];
            !e.consumed && e.account_id == *account_id && e.amount == amount && e.kind == kind
        };
        if !entry_matches {
            return false;
        }
        self.pending_requests[i].consumed = true;
        proof {
            let s = old(self).pending_requests@;
            let s2 = self.pending_requests@;
            let e2 = s2[i as int];
            assert(s2 =~= s.update(i as int, e2));
            lemma_pending_map_update(s, i as int, e2);
            assert(forall|k: int| 0 <= k < s2.len() ==> s2[k].request_id == s[k].request_id);
        }
        true
    }

    /// Issues the correlation token for a plain stake deposit the host
    /// is about to transfer. The host must carry the token into the
    /// completion callback; `on_stake_complete` accepts each token
    /// exactly once.
    pub fn begin_stake_transfer(&mut self, caller: &String, amount: u128) -> (token: u64)
        requires
            old(self).wf(),
            old(self).next_request_id < u64::MAX,
        ensures
            final(self).wf(),
            same_config(*old(self), *final(self)),
            final(self).agent_reputations@ == old(self).agent_reputations@,
            final(self).agent_stakes@ == old(self).agent_stakes@,
            token == old(self).next_request_id,
            final(self).next_request_id == old(self).next_request_id + 1,
            final(self).pending() == old(self).pending().insert(
                token,
                (PendingRequest {
                    request_id: token,
                    account_id: *caller,
                    amount,
                    kind: PendingKind::Deposit,
                    consumed: false,
                }),
            ),
    {
        self.register_pending(caller, amount, PendingKind::Deposit)
    }

    /// Applies the outcome of an external stake-deposit transfer. The
    /// call must present the token issued at initiation, still
    /// unconsumed and matching agent and amount; the token is consumed
    /// either way, so each request takes exactly one outcome and a
    /// duplicate success cannot double-credit. On success the amount is
    /// credited to the agent's stake; on failure nothing else changes
    /// and the failure is reported.
    pub fn on_stake_complete(
        &mut self,
        agent_id: &String,
        amount: u128,
        outcome: TransferOutcome,
        request_id: u64,
    ) -> (r: Result<(), ReputationError>)
        requires
            old(self).wf(),
            old(self).spec_pending_matches(request_id, agent_id@, amount, PendingKind::Deposit)
                && outcome == TransferOutcome::Success ==> old(self).stake_of(agent_id@) + amount
                <= u128::MAX,
        ensures
            final(self).wf(),
            same_config(*old(self), *final(self)),
            final(self).agent_reputations@ == old(self).agent_reputations@,
            final(self).next_request_id == old(self).next_request_id,
            !old(self).spec_pending_matches(request_id, agent_id@, amount, PendingKind::Deposit)
                ==> r == Err::<(), ReputationError>(ReputationError::Unauthorized) && *final(self)
                == *old(self),
            old(self).spec_pending_matches(request_id, agent_id@, amount, PendingKind::Deposit)
                ==> final(self).pending() == old(self).pending().insert(
                request_id,
                (PendingRequest { consumed: true, ..old(self).pending()[request_id] }),
            ),
            old(self).spec_pending_matches(request_id, agent_id@, amount, PendingKind::Deposit)
                && outcome == TransferOutcome::Failure ==> r == Err::<(), ReputationError>(
                ReputationError::TransferFailed,
            ) && final(self).agent_stakes@ == old(self).agent_stakes@,
            old(self).spec_pending_matches(request_id, agent_id@, amount, PendingKind::Deposit)
                && outcome == TransferOutcome::Success ==> {
                &&& r == Ok::<(), ReputationError>(())
                &&& final(self).stake_of(agent_id@) == old(self).stake_of(agent_id@) + amount
                &&& forall|other: Seq<char>|
                    other != agent_id@ ==> final(self).stake_of(other) == old(self).stake_of(other)
            },
    {
        if !self.consume_matching_pending(request_id, agent_id, amount, PendingKind::Deposit) {
            return Err(ReputationError::Unauthorized);
        }
        match outcome {
            TransferOutcome::Failure => Err(ReputationError::TransferFailed),
            TransferOutcome::Success => {
                let current = self.read_stake(agent_id);
                self.write_stake(agent_id, current + amount);
                Ok(())
            },
        }
    }

    /// Checks that the calling agent is eligible for stake-boosted
    /// recovery — registered, score below 50 — and issues the
    /// correlation token for the recovery transfer. The host carries
    /// the token into `on_recovery_stake_complete`, which accepts it
    /// exactly once.
    pub fn boost_recovery_with_stake(&mut self, caller: &String, additional_stake: u128) -> (r:
        Result<u64, ReputationError>)
        requires
            old(self).wf(),
            old(self).next_request_id < u64::MAX,
        ensures
            final(self).wf(),
            same_config(*old(self), *final(self)),
            final(self).agent_reputations@ == old(self).agent_reputations@,
            final(self).agent_stakes@ == old(self).agent_stakes@,
            !old(self).agents().contains_key(caller@) ==> r == Err::<u64, ReputationError>(
                ReputationError::NotRegistered,
            ) && *final(self) == *old(self),
            old(self).agents().contains_key(caller@) && old(self).agents()[caller@].score >= 50
                ==> r == Err::<u64, ReputationError>(ReputationError::Unauthorized) && *final(self)
                == *old(self),
            old(self).agents().contains_key(caller@) && old(self).agents()[caller@].score < 50
                ==> {
                &&& r == Ok::<u64, ReputationError>(old(self).next_request_id)
                &&& final(self).next_request_id == old(self).next_request_id + 1
                &&& final(self).pending() == old(self).pending().insert(
                    old(self).next_request_id,
                    (PendingRequest {
                        request_id: old(self).next_request_id,
                        account_id: *caller,
                        amount: additional_stake,
                        kind: PendingKind::Recovery,
                        consumed: false,
                    }),
                )
            },
    {
        let i = match self.find_agent_index(caller) {
            None => {
                return Err(ReputationError::NotRegistered);
            },
            Some(i) => i,
        };
        if self.agent_reputations[i].reputation.score >= 50 {
            return Err(ReputationError::Unauthorized);
        }
        let token = self.register_pending(caller, additional_stake, PendingKind::Recovery);
        Ok(token)
    }

    /// Applies the outcome of a recovery stake transfer. The call must
    /// present the token issued by `boost_recovery_with_stake`, still
    /// unconsumed and matching agent and amount; the token is consumed
    /// either way, so a duplicate success cannot grant points twice. On
    /// success the agent gains one point per tenth of the minimum
    /// stake, at most 20, capped at a score of 100; an identity no
    /// longer registered is ignored. On failure nothing else changes
    /// and the failure is reported.
    pub fn on_recovery_stake_complete(
        &mut self,
        agent_id: &String,
        amount: u128,
        outcome: TransferOutcome,
        request_id: u64,
    ) -> (r: Result<(), ReputationError>)
        requires
            old(self).wf(),
            old(self).spec_pending_matches(request_id, agent_id@, amount, PendingKind::Recovery)
                ==> amount <= u128::MAX / 10,
        ensures
            final(self).wf(),
            same_config(*old(self), *final(self)),
            final(self).agent_stakes@ == old(self).agent_stakes@,
            final(self).next_request_id == old(self).next_request_id,
            !old(self).spec_pending_matches(request_id, agent_id@, amount, PendingKind::Recovery)
                ==> r == Err::<(), ReputationError>(ReputationError::Unauthorized) && *final(self)
                == *old(self),
            old(self).spec_pending_matches(request_id, agent_id@, amount, PendingKind::Recovery)
                ==> final(self).pending() == old(self).pending().insert(
                request_id,
                (PendingRequest { consumed: true, ..old(self).pending()[request_id] }),
            ),
            old(self).spec_pending_matches(request_id, agent_id@, amount, PendingKind::Recovery)
                && outcome == TransferOutcome::Failure ==> r == Err::<(), ReputationError>(
                ReputationError::TransferFailed,
            ) && final(self).agent_reputations@ == old(self).agent_reputations@,
            old(self).spec_pending_matches(request_id, agent_id@, amount, PendingKind::Recovery)
                && outcome == TransferOutcome::Success && !old(self).agents().contains_key(
                agent_id@,
            ) ==> r == Ok::<(), ReputationError>(()) && final(self).agent_reputations@ == old(
                self,
            ).agent_reputations@,
            old(self).spec_pending_matches(request_id, agent_id@, amount, PendingKind::Recovery)
                && outcome == TransferOutcome::Success && old(self).agents().contains_key(agent_id@)
                ==> {
                let old_rec = old(self).agents()[agent_id@];
                let new_rec = final(self).agents()[agent_id@];
                let per_tenth = amount * 10 / old(self).min_stake_amount as int;
                let recovery = if per_tenth > 20 {
                    20int
                } else {
                    per_tenth
                };
                &&& r == Ok::<(), ReputationError>(())
                &&& new_rec.score == (if old_rec.score + recovery > 100 {
                    100u32
                } else {
                    (old_rec.score + recovery) as u32
                })
                &&& new_rec == (AgentReputation { score: new_rec.score, ..old_rec })
                &&& final(self).agents() == old(self).agents().insert(agent_id@, new_rec)
            },
    {
        if !self.consume_matching_pending(request_id, agent_id, amount, PendingKind::Recovery) {
            return Err(ReputationError::Unauthorized);
        }
        match outcome {
            TransferOutcome::Failure => Err(ReputationError::TransferFailed),
            TransferOutcome::Success => {
                let i = match self.find_agent_index(agent_id) {
                    None => {
                        return Ok(());
                    },
                    Some(i) => i,
                };
                proof {
                    assert(rec_wf(old(self).agent_reputations@[i as int].reputation));
                }
                let per_tenth = amount * 10 / self.min_stake_amount;
                let recovery_points: u32 = if per_tenth > 20 {
                    20
                } else {
                    per_tenth as u32
                };
                let score = self.agent_reputations[i].reputation.score;
                let new_score = if recovery_points > 100 - score {
                    100
                } else {
                    score + recovery_points
                };
                self.agent_reputations[i].reputation.score = new_score;
                proof {
                    let s = old(self).agent_reputations@;
                    let s2 = self.agent_reputations@;
                    let new_rec = s2[i as int].reputation;
                    assert(s2 =~= s.update(
                        i as int,
                        AgentEntry { agent_id: s[i as int].agent_id, reputation: new_rec },
                    ));
                    lemma_agents_map_update(s, i as int, new_rec);
                    assert(forall|k: int| 0 <= k < s2.len() ==> s2[k].agent_id@ == s[k].agent_id@);
                }
                Ok(())
            },
        }
    }

    /// Withdraws part of the caller's stake, with `InsufficientStake`
    /// when the request exceeds what is staked. Dropping below the
    /// minimum stake costs a registered agent 5 reputation points,
    /// unless its score is already 5 or lower. Returns the transfer the
    /// host must perform to hand the tokens back.
    pub fn unstake_itlx(&mut self, caller: &String, amount: u128) -> (r: Result<
        TransferRequest,
        ReputationError,
    >)
        requires
            old(self).wf(),
        ensures
            final(self).wf(),
            same_config(*old(self), *final(self)),
            same_pending(*old(self), *final(self)),
            old(self).stake_of(caller@) < amount ==> r == Err::<TransferRequest, ReputationError>(
                ReputationError::InsufficientStake,
            ) && *final(self) == *old(self),
            old(self).stake_of(caller@) >= amount ==> {
                let remaining = old(self).stake_of(caller@) - amount;
                &&& r == Ok::<TransferRequest, ReputationError>(
                    TransferRequest {
                        token_contract_id: old(self).token_contract_id,
                        receiver_id: *caller,
                        amount,
                    },
                )
                &&& final(self).stake_of(caller@) == remaining
                &&& forall|other: Seq<char>|
                    other != caller@ ==> final(self).stake_of(other) == old(self).stake_of(other)
                &&& if remaining < old(self).min_stake_amount && old(self).agents().contains_key(
                    caller@,
                ) && old(self).agents()[caller@].score > 5 {
                    let old_rec = old(self).agents()[caller@];
                    let new_rec = final(self).agents()[caller@];
                    &&& new_rec.score == old_rec.score - 5
                    &&& new_rec == (AgentReputation { score: new_rec.score, ..old_rec })
                    &&& final(self).agents() == old(self).agents().insert(caller@, new_rec)
                } else {
                    final(self).agent_reputations@ == old(self).agent_reputations@
                }
            },
    {
        let current = self.read_stake(caller);
        if current < amount {
            return Err(ReputationError::InsufficientStake);
        }
        self.write_stake(caller, current - amount);
        if current - amount < self.min_stake_amount {
            match self.find_agent_index(caller) {
                Some(i) => {
                    let score = self.agent_reputations[i].reputation.score;
                    if score > 5 {
                        self.agent_reputations[i].reputation.score = score - 5;
                        proof {
                            let s = old(self).agent_reputations@;
                            let s2 = self.agent_reputations@;
                            let new_rec = s2[i as int].reputation;
                            assert(s2 =~= s.update(
                                i as int,
                                AgentEntry {
                                    agent_id: s[i as int].agent_id,
                                    reputation: new_rec,
                                },
                            ));
                            lemma_agents_map_update(s, i as int, new_rec);
                            assert(forall|k: int|
                                0 <= k < s2.len() ==> s2[k].agent_id@ == s[k].agent_id@);
                        }
                    }
                },
                None => {},
            }
        }
        Ok(
            TransferRequest {
                token_contract_id: self.token_contract_id.clone(),
                receiver_id: caller.clone(),
                amount,
            },
        )
    }
}

} // verus!

verus! {

/// Copies a vector of strings, preserving its contents exactly.
fn clone_string_vec(v: &Vec<String>) -> (r: Vec<String>)
    ensures
        r@ == v@,
{
    let mut r: Vec<String> = Vec::new();
    let mut i: usize = 0;
    proof {
        assert(r@ =~= v@.take(0));
    }
    while i < v.len()
        invariant
            i <= v@.len(),
            r@ == v@.take(i as int),
        decreases v@.len() - i,
    {
        let s = v[i].clone();
        r.push(s);
        proof {
            assert(v@.take(i as int + 1) =~= v@.take(i as int).push(v@[i as int]));
        }
        i = i + 1;
    }
    proof {
        assert(v@.take(v@.len() as int) =~= v@);
    }
    r
}

/// A snapshot is importable only when its numbers could have come from
/// a well-formed record; anything else is rejected as failed
/// verification, fail-closed.
pub open spec fn snapshot_acceptable(snapshot: CrossChainReputation) -> bool {
    &&& snapshot.score <= 100
    &&& snapshot.successful_interactions <= snapshot.total_interactions
    &&& snapshot.total_interactions <= u32::MAX as u64
}

impl AgentReputationContract {
    /// Reads the summary view of an agent; `None` when it is not
    /// registered, distinct from a zero score.
    pub fn get_agent_reputation(&self, agent_id: &String) -> (r: Option<AgentReputationView>)
        requires
            self.wf(),
        ensures
            match r {
                Some(view) => {
                    &&& self.agents().contains_key(agent_id@)
                    &&& view.score == self.agents()[agent_id@].score
                    &&& view.total_interactions == self.agents()[agent_id@].total_interactions
                    &&& view.successful_interactions == self.agents()[agent_id@]
                        .successful_interactions
                    &&& view.specializations@ == self.agents()[agent_id@].specializations@
                    &&& view.last_update == self.agents()[agent_id@].last_update
                },
                None => !self.agents().contains_key(agent_id@),
            },
    {
        match self.find_agent_index(agent_id) {
            None => None,
            Some(i) => {
                let rec = &self.agent_reputations[i].reputation;
                Some(
                    AgentReputationView {
                        score: rec.score,
                        total_interactions: rec.total_interactions,
                        successful_interactions: rec.successful_interactions,
                        specializations: clone_string_vec(&rec.specializations),
                        last_update: rec.last_update,
                    },
                )
            },
        }
    }

    /// The trust tier of a score.
    pub fn get_trust_level(&self, score: u32) -> (t: TrustLevel)
        ensures
            t == trust_level_of(score),
    {
        trust_level_for_score(score)
    }

    /// The capability row of a registered agent, derived from its
    /// current score; `None` when it is not registered.
    pub fn get_capability_limits(&self, agent_id: &String) -> (r: Option<CapabilityLimits>)
        requires
            self.wf(),
        ensures
            match r {
                Some(limits) => self.agents().contains_key(agent_id@) && limits
                    == capability_limits_of(trust_level_of(self.agents()[agent_id@].score)),
                None => !self.agents().contains_key(agent_id@),
            },
    {
        match self.find_agent_index(agent_id) {
            None => None,
            Some(i) => {
                let level = trust_level_for_score(self.agent_reputations[i].reputation.score);
                Some(capability_limits_for_level(level))
            },
        }
    }

    /// Whether an agent may perform an action, fail-closed: `false` for
    /// an unregistered agent, an unknown action kind, or a transaction
    /// request without a value.
    pub fn can_perform_action(&self, agent_id: &String, action_type: String, value: Option<u128>)
        -> (r: bool)
        requires
            self.wf(),
        ensures
            r == (self.agents().contains_key(agent_id@) && action_allowed(
                capability_limits_of(trust_level_of(self.agents()[agent_id@].score)),
                action_type@,
                value,
            )),
    {
        match self.get_capability_limits(agent_id) {
            None => false,
            Some(limits) => evaluate_action(&limits, &action_type, value),
        }
    }

    /// Reads the detailed view of an agent: the summary plus the
    /// derived trust tier and the stored category averages.
    pub fn get_agent_reputation_detailed(&self, agent_id: &String) -> (r: Option<
        AgentReputationDetailedView,
    >)
        requires
            self.wf(),
        ensures
            match r {
                Some(view) => {
                    &&& self.agents().contains_key(agent_id@)
                    &&& view.score == self.agents()[agent_id@].score
                    &&& view.total_interactions == self.agents()[agent_id@].total_interactions
                    &&& view.successful_interactions == self.agents()[agent_id@]
                        .successful_interactions
                    &&& view.specializations@ == self.agents()[agent_id@].specializations@
                    &&& view.last_update == self.agents()[agent_id@].last_update
                    &&& view.trust_level == trust_level_of(self.agents()[agent_id@].score)
                    &&& view.category_scores == self.agents()[agent_id@].category_scores
                },
                None => !self.agents().contains_key(agent_id@),
            },
    {
        match self.find_agent_index(agent_id) {
            None => None,
            Some(i) => {
                let rec = &self.agent_reputations[i].reputation;
                Some(
                    AgentReputationDetailedView {
                        score: rec.score,
                        total_interactions: rec.total_interactions,
                        successful_interactions: rec.successful_interactions,
                        specializations: clone_string_vec(&rec.specializations),
                        last_update: rec.last_update,
                        trust_level: trust_level_for_score(rec.score),
                        category_scores: rec.category_scores,
                    },
                )
            },
        }
    }

    /// Records a new intent being handled by an agent and hands the
    /// record back for the host to log; the ledger itself keeps no
    /// intent state.
    pub fn record_intent(
        &self,
        client_id: &String,
        intent_id: String,
        agent_id: String,
        intent_type: String,
        parameters: String,
        now: u64,
    ) -> (r: Result<IntentData, ReputationError>)
        requires
            self.wf(),
        ensures
            !self.agents().contains_key(agent_id@) ==> r == Err::<IntentData, ReputationError>(
                ReputationError::NotRegistered,
            ),
            self.agents().contains_key(agent_id@) ==> r == Ok::<IntentData, ReputationError>(
                IntentData {
                    intent_id,
                    agent_id,
                    client_id: *client_id,
                    intent_type,
                    parameters,
                    status: IntentStatus::Created,
                    timestamp: now,
                },
            ),
    {
        match self.find_agent_index(&agent_id) {
            None => Err(ReputationError::NotRegistered),
            Some(_) => Ok(
                IntentData {
                    intent_id,
                    agent_id,
                    client_id: client_id.clone(),
                    intent_type,
                    parameters,
                    status: IntentStatus::Created,
                    timestamp: now,
                },
            ),
        }
    }

    /// Advances the calling agent's interaction counters when an intent
    /// finishes: a completion counts as a successful interaction, a
    /// failure only as an interaction, and in-progress changes nothing.
    /// The status must be one of `completed`, `failed` or
    /// `in_progress`.
    pub fn update_intent_status(
        &mut self,
        caller: &String,
        intent_id: String,
        status: String,
        result: Option<String>,
    ) -> (r: Result<(), ReputationError>)
        requires
            old(self).wf(),
            status@ == "completed"@ || status@ == "failed"@ || status@ == "in_progress"@,
            old(self).agents().contains_key(caller@) ==> old(self).agents()[caller@]
                .total_interactions < u32::MAX as u64,
        ensures
            final(self).wf(),
            same_config(*old(self), *final(self)),
            same_pending(*old(self), *final(self)),
            final(self).agent_stakes@ == old(self).agent_stakes@,
            !old(self).agents().contains_key(caller@) ==> r == Err::<(), ReputationError>(
                ReputationError::NotRegistered,
            ) && *final(self) == *old(self),
            old(self).agents().contains_key(caller@) && status@ == "in_progress"@ ==> r == Ok::<
                (),
                ReputationError,
            >(()) && *final(self) == *old(self),
            old(self).agents().contains_key(caller@) && (status@ == "completed"@ || status@
                == "failed"@) ==> {
                let old_rec = old(self).agents()[caller@];
                let new_rec = final(self).agents()[caller@];
                &&& r == Ok::<(), ReputationError>(())
                &&& new_rec.total_interactions == old_rec.total_interactions + 1
                &&& new_rec.successful_interactions == old_rec.successful_interactions + (
                    if status@ == "completed"@ {
                        1u64
                    } else {
                        0u64
                    }
                )
                &&& new_rec == (AgentReputation {
                    total_interactions: new_rec.total_interactions,
                    successful_interactions: new_rec.successful_interactions,
                    ..old_rec
                })
                &&& final(self).agents() == old(self).agents().insert(caller@, new_rec)
            },
    {
        let i = match self.find_agent_index(caller) {
            None => {
                return Err(ReputationError::NotRegistered);
            },
            Some(i) => i,
        };
        proof {
            assert(rec_wf(old(self).agent_reputations@[i as int].reputation));
            reveal_strlit("completed");
            reveal_strlit("failed");
            reveal_strlit("in_progress");
            assert("completed"@.len() == 9);
            assert("failed"@.len() == 6);
            assert("in_progress"@.len() == 11);
        }
        let completed: String = "completed".to_owned();
        let failed: String = "failed".to_owned();
        if status == completed || status == failed {
            let total = self.agent_reputations[i].reputation.total_interactions;
            self.agent_reputations[i].reputation.total_interactions = total + 1;
            if status == completed {
                let successful = self.agent_reputations[i].reputation.successful_interactions;
                self.agent_reputations[i].reputation.successful_interactions = successful + 1;
            }
            proof {
                let s = old(self).agent_reputations@;
                let s2 = self.agent_reputations@;
                let new_rec = s2[i as int].reputation;
                assert(s2 =~= s.update(
                    i as int,
                    AgentEntry { agent_id: s[i as int].agent_id, reputation: new_rec },
                ));
                lemma_agents_map_update(s, i as int, new_rec);
                assert(forall|k: int| 0 <= k < s2.len() ==> s2[k].agent_id@ == s[k].agent_id@);
            }
        }
        Ok(())
    }

    /// The default cross-chain proof verifier: a pluggable capability
    /// whose built-in implementation rejects every proof, so nothing is
    /// ever imported until a real verifier stands in its place.
    pub fn verify_cross_chain_data(&self, source_chain: String, proof_data: String) -> (r: Option<
        CrossChainReputation,
    >)
        ensures
            r is None,
    {
        None
    }

    /// Applies an already-verified reputation snapshot to the ledger.
    /// Only the owner or the agent itself may import. A rejected proof
    /// (`None`) or a snapshot whose numbers no well-formed record could
    /// carry fails with `VerificationFailed` and changes nothing. For a
    /// registered agent the imported score is averaged with the current
    /// one; otherwise a fresh record is created from the snapshot, with
    /// empty histories.
    pub fn apply_verified_import(
        &mut self,
        caller: &String,
        agent_id: &String,
        verified: Option<CrossChainReputation>,
        now: u64,
    ) -> (r: Result<(), ReputationError>)
        requires
            old(self).wf(),
        ensures
            final(self).wf(),
            same_config(*old(self), *final(self)),
            same_pending(*old(self), *final(self)),
            final(self).agent_stakes@ == old(self).agent_stakes@,
            !(caller@ == old(self).owner_id@ || caller@ == agent_id@) ==> r == Err::<
                (),
                ReputationError,
            >(ReputationError::Unauthorized) && *final(self) == *old(self),
            (caller@ == old(self).owner_id@ || caller@ == agent_id@) && (verified is None
                || !snapshot_acceptable(verified->Some_0)) ==> r == Err::<(), ReputationError>(
                ReputationError::VerificationFailed,
            ) && *final(self) == *old(self),
            (caller@ == old(self).owner_id@ || caller@ == agent_id@) && verified is Some
                && snapshot_acceptable(verified->Some_0) && old(self).agents().contains_key(
                agent_id@,
            ) ==> {
                let snapshot = verified->Some_0;
                let old_rec = old(self).agents()[agent_id@];
                let new_rec = final(self).agents()[agent_id@];
                &&& r == Ok::<(), ReputationError>(())
                &&& new_rec.score == (old_rec.score + snapshot.score) as u32 / 2
                &&& new_rec == (AgentReputation { score: new_rec.score, ..old_rec })
                &&& final(self).agents() == old(self).agents().insert(agent_id@, new_rec)
            },
            (caller@ == old(self).owner_id@ || caller@ == agent_id@) && verified is Some
                && snapshot_acceptable(verified->Some_0) && !old(self).agents().contains_key(
                agent_id@,
            ) ==> {
                let snapshot = verified->Some_0;
                let new_rec = final(self).agents()[agent_id@];
                &&& r == Ok::<(), ReputationError>(())
                &&& final(self).agents().contains_key(agent_id@)
                &&& new_rec.score == snapshot.score
                &&& new_rec.total_interactions == snapshot.total_interactions
                &&& new_rec.successful_interactions == snapshot.successful_interactions
                &&& new_rec.specializations@ == snapshot.specializations@
                &&& new_rec.feedback_history@.len() == 0
                &&& new_rec.violation_history@.len() == 0
                &&& new_rec.last_update == now
                &&& final(self).agents() == old(self).agents().insert(agent_id@, new_rec)
            },
    {
        let authorized = *caller == self.owner_id || *caller == *agent_id;
        if !authorized {
            return Err(ReputationError::Unauthorized);
        }
        let snapshot = match verified {
            None => {
                return Err(ReputationError::VerificationFailed);
            },
            Some(snapshot) => snapshot,
        };
        if snapshot.score > 100 || snapshot.successful_interactions > snapshot.total_interactions
            || snapshot.total_interactions > u32::MAX as u64 {
            return Err(ReputationError::VerificationFailed);
        }
        match self.find_agent_index(agent_id) {
            Some(i) => {
                proof {
                    assert(rec_wf(old(self).agent_reputations@[i as int].reputation));
                }
                let score = self.agent_reputations[i].reputation.score;
                self.agent_reputations[i].reputation.score = (score + snapshot.score) / 2;
                proof {
                    let s = old(self).agent_reputations@;
                    let s2 = self.agent_reputations@;
                    let new_rec = s2[i as int].reputation;
                    assert(s2 =~= s.update(
                        i as int,
                        AgentEntry { agent_id: s[i as int].agent_id, reputation: new_rec },
                    ));
                    lemma_agents_map_update(s, i as int, new_rec);
                    assert(forall|k: int| 0 <= k < s2.len() ==> s2[k].agent_id@ == s[k].agent_id@);
                }
                Ok(())
            },
            None => {
                let record = AgentReputation {
                    score: snapshot.score,
                    total_interactions: snapshot.total_interactions,
                    successful_interactions: snapshot.successful_interactions,
                    feedback_history: Vec::new(),
                    last_update: now,
                    specializations: snapshot.specializations,
                    category_scores: CategoryRatings {
                        accuracy: 0,
                        response_time: 0,
                        communication: 0,
                        problem_solving: 0,
                        ethics: 0,
                    },
                    violation_history: Vec::new(),
                };
                let entry = AgentEntry { agent_id: agent_id.clone(), reputation: record };
                proof {
                    lemma_agents_map_membership(self.agent_reputations@, agent_id@);
                    lemma_agents_map_push(self.agent_reputations@, entry);
                }
                self.agent_reputations.push(entry);
                proof {
                    let s = old(self).agent_reputations@;
                    let s2 = self.agent_reputations@;
                    assert(forall|k: int| 0 <= k < s.len() ==> s2[k] == s[k]);
                    assert(agent_ids_unique(s2));
                }
                Ok(())
            },
        }
    }

    /// Imports reputation for an agent from another chain: the proof is
    /// handed to the verifier, and its outcome applied. With the
    /// built-in verifier every proof is rejected, so this always fails
    /// with `Unauthorized` or `VerificationFailed` and changes nothing;
    /// a host with a real verifier calls `apply_verified_import`
    /// directly.
    pub fn import_cross_chain_reputation(
        &mut self,
        caller: &String,
        agent_id: &String,
        source_chain: String,
        proof_data: String,
        now: u64,
    ) -> (r: Result<(), ReputationError>)
        requires
            old(self).wf(),
        ensures
            final(self).wf(),
            *final(self) == *old(self),
            !(caller@ == old(self).owner_id@ || caller@ == agent_id@) ==> r == Err::<
                (),
                ReputationError,
            >(ReputationError::Unauthorized),
            (caller@ == old(self).owner_id@ || caller@ == agent_id@) ==> r == Err::<
                (),
                ReputationError,
            >(ReputationError::VerificationFailed),
    {
        let verified = self.verify_cross_chain_data(source_chain, proof_data);
        self.apply_verified_import(caller, agent_id, verified, now)
    }

    /// Exports an agent's reputation as a portable snapshot, stamped
    /// with the current time and this ledger's chain. Only the agent
    /// itself may export its reputation.
    pub fn export_reputation(&self, caller: &String, agent_id: &String, now: u64) -> (r: Result<
        CrossChainReputation,
        ReputationError,
    >)
        requires
            self.wf(),
        ensures
            !self.agents().contains_key(agent_id@) ==> r == Err::<
                CrossChainReputation,
                ReputationError,
            >(ReputationError::NotRegistered),
            self.agents().contains_key(agent_id@) && caller@ != agent_id@ ==> r == Err::<
                CrossChainReputation,
                ReputationError,
            >(ReputationError::Unauthorized),
            self.agents().contains_key(agent_id@) && caller@ == agent_id@ ==> {
                let rec = self.agents()[agent_id@];
                &&& r matches Ok(snapshot)
                &&& r->Ok_0.score == rec.score
                &&& r->Ok_0.total_interactions == rec.total_interactions
                &&& r->Ok_0.successful_interactions == rec.successful_interactions
                &&& r->Ok_0.specializations@ == rec.specializations@
                &&& r->Ok_0.source_chain@ == "near"@
                &&& r->Ok_0.timestamp == now
            },
    {
        let i = match self.find_agent_index(agent_id) {
            None => {
                return Err(ReputationError::NotRegistered);
            },
            Some(i) => i,
        };
        if !(*caller == *agent_id) {
            return Err(ReputationError::Unauthorized);
        }
        let rec = &self.agent_reputations[i].reputation;
        Ok(
            CrossChainReputation {
                score: rec.score,
                total_interactions: rec.total_interactions,
                successful_interactions: rec.successful_interactions,
                specializations: clone_string_vec(&rec.specializations),
                source_chain: "near".to_owned(),
                timestamp: now,
            },
        )
    }
}

} // verus!
