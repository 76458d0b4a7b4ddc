//! Collaboration between agents: majority votes over a goal, and a
//! verifier that asks a model to critique an output.
use std::collections::HashMap;
use vstd::prelude::*;
use vstd::std_specs::iter::IteratorSpec;
use vstd::string::*;

use crate::ids::new_id;

verus! {

broadcast use vstd::std_specs::hash::group_hash_axioms;

/// One agent's answer in a consensus session.
#[derive(Debug, Clone, Copy, PartialEq, Eq, Structural)]
pub enum Vote {
    Approve,
    Reject,
    Abstain,
}

/// A vote among the agents of a crew on a goal: each agent holds one vote
/// (a later vote replaces an earlier one) and a strict majority decides.
#[derive(Debug, Clone)]
pub struct ConsensusSession {
    pub id: u128,
    pub goal: String,
    pub votes: HashMap<u128, Vote>,
    pub required_votes: usize,
}

/// The agents whose current vote is `kind`.
pub open spec fn voters_for(votes: Map<u128, Vote>, kind: Vote) -> Set<u128> {
    votes.dom().filter(|a: u128| votes[a] == kind)
}

/// The number of agents whose current vote is `kind`.
pub open spec fn tally(votes: Map<u128, Vote>, kind: Vote) -> nat {
    voters_for(votes, kind).len()
}

/// The smallest strict majority of `total_agents`.
pub open spec fn majority_of(total_agents: nat) -> nat {
    total_agents / 2 + 1
}

/// The votes a decision needs among `total_agents` agents are the smallest
/// strict majority: that many agents are more than half of them, and one
/// fewer are not.
pub proof fn lemma_majority_is_smallest_strict_majority(total_agents: nat)
    ensures
        2 * majority_of(total_agents) > total_agents,
        2 * (majority_of(total_agents) - 1) <= total_agents,
{
}

/// Among `total_agents` agents, a count of votes reaches the needed number
/// exactly when those agents are more than half of all of them.
pub proof fn lemma_needed_votes_iff_more_than_half(total_agents: nat, count: nat)
    ensures
        count >= majority_of(total_agents) <==> 2 * count > total_agents,
{
}

/// Counts the entries of `votes` equal to `kind`.
fn count_votes(votes: &HashMap<u128, Vote>, kind: Vote) -> (n: usize)
    ensures
        n == tally(votes@, kind),
{
    let total = votes.len();
    let ghost sq = vstd::std_specs::hash::spec_hash_map_iter(votes).remaining();
    let ghost mut seen: Set<u128> = Set::empty();
    let ghost mut idx: int = 0;
    let mut n: usize = 0;
    assert(seen.filter(|a: u128| votes@[a] == kind) =~= Set::empty());
    for entry in it: votes.iter()
        invariant
            total == votes@.dom().len(),
            it.seq() == sq,
            it.seq().no_duplicates(),
            idx == it.index(),
            seen.finite(),
            seen.len() == it.index(),
            forall|a: u128|
                seen.contains(a) <==> (exists|j: int| 0 <= j < it.index() && *it.seq()[j].0 == a),
            n == seen.filter(|a: u128| votes@[a] == kind).len(),
            n <= it.index(),
    {
        let (agent, vote) = entry;
        proof {
            let i = it.index();
            assert(it.seq()[i] == entry);
            assert(!seen.contains(*agent)) by {
                if seen.contains(*agent) {
                    let j = choose|j: int| 0 <= j < i && *it.seq()[j].0 == *agent;
                    assert(votes@.contains_key(*it.seq()[j].0));
                    assert(it.seq()[j] == it.seq()[i]);
                }
            }
            assert(votes@[*agent] == *vote);
            assert(seen.insert(*agent).filter(|a: u128| votes@[a] == kind) =~= if *vote == kind {
                seen.filter(|a: u128| votes@[a] == kind).insert(*agent)
            } else {
                seen.filter(|a: u128| votes@[a] == kind)
            });
            seen = seen.insert(*agent);
            idx = idx + 1;
        }
        if *vote == kind {
            n = n + 1;
        }
    }
    proof {
        assert(idx == sq.len());
        assert(seen == votes@.dom()) by {
            assert forall|a: u128| votes@.dom().contains(a) implies seen.contains(a) by {
                let j = choose|j: int| 0 <= j < sq.len() && sq[j] == (&a, &votes@[a]);
                assert(*sq[j].0 == a);
            }
        }
        assert(seen.filter(|a: u128| votes@[a] == kind) =~= voters_for(votes@, kind));
    }
    n
}

impl ConsensusSession {
    /// A session on `goal` among `total_agents` agents, with no votes yet;
    /// it needs a strict majority of them.
    pub fn new(goal: &str, total_agents: usize) -> (session: Self)
        ensures
            session.goal@ == goal@,
            session.votes@ == Map::<u128, Vote>::empty(),
            session.required_votes == majority_of(total_agents as nat),
            2 * session.required_votes > total_agents,
            2 * (session.required_votes - 1) <= total_agents,
    {
        proof {
            lemma_majority_is_smallest_strict_majority(total_agents as nat);
        }
        ConsensusSession {
            id: new_id(),
            goal: goal.to_string(),
            votes: HashMap::new(),
            required_votes: (total_agents / 2) + 1,
        }
    }

    /// Records `vote` as the current vote of `agent_id`, replacing any
    /// earlier one.
    pub fn cast_vote(&mut self, agent_id: u128, vote: Vote)
        ensures
            final(self).votes@ == old(self).votes@.insert(agent_id, vote),
            final(self).id == old(self).id,
            final(self).goal == old(self).goal,
            final(self).required_votes == old(self).required_votes,
    {
        self.votes.insert(agent_id, vote);
    }

    /// Whether enough agents approve.
    pub fn is_reached(&self) -> (reached: bool)
        ensures
            reached == (tally(self.votes@, Vote::Approve) >= self.required_votes),
    {
        let approves = count_votes(&self.votes, Vote::Approve);
        approves >= self.required_votes
    }

    /// Whether enough agents reject.
    pub fn is_rejected(&self) -> (rejected: bool)
        ensures
            rejected == (tally(self.votes@, Vote::Reject) >= self.required_votes),
    {
        let rejects = count_votes(&self.votes, Vote::Reject);
        rejects >= self.required_votes
    }
}

/// A session among `total_agents` agents in which no more than that many
/// agents have voted is never both reached and rejected.
pub proof fn lemma_never_reached_and_rejected(session: ConsensusSession, total_agents: nat)
    requires
        session.required_votes == majority_of(total_agents),
        session.votes@.dom().len() <= total_agents,
    ensures
        !(tally(session.votes@, Vote::Approve) >= session.required_votes && tally(
            session.votes@,
            Vote::Reject,
        ) >= session.required_votes),
{
    let m = session.votes@;
    let a = voters_for(m, Vote::Approve);
    let r = voters_for(m, Vote::Reject);
    vstd::set_lib::lemma_len_subset(a, m.dom());
    vstd::set_lib::lemma_len_subset(r, m.dom());
    assert(a.disjoint(r));
    vstd::set_lib::lemma_set_disjoint_lens(a, r);
    vstd::set_lib::lemma_len_subset(a + r, m.dom());
}

/// Casting a vote never lowers the tally of the kind that was cast: an
/// approval cannot undo a reached consensus, nor a rejection a rejected one.
pub proof fn lemma_vote_keeps_own_tally(votes: Map<u128, Vote>, agent_id: u128, vote: Vote)
    requires
        votes.dom().finite(),
    ensures
        tally(votes.insert(agent_id, vote), vote) >= tally(votes, vote),
{
    let after = votes.insert(agent_id, vote);
    assert(voters_for(votes, vote).subset_of(voters_for(after, vote)));
    vstd::set_lib::lemma_len_subset(voters_for(votes, vote), voters_for(after, vote));
}

/// An agent that asks its model to judge an output against instructions.
pub struct VerifierAgent<L> {
    pub instructions: String,
    pub llm: L,
}

impl<L> VerifierAgent<L> {
    /// A verifier holding `instructions` and the model `llm`.
    pub fn new(instructions: &str, llm: L) -> (verifier: Self)
        ensures
            verifier.instructions@ == instructions@,
            verifier.llm == llm,
    {
        VerifierAgent { instructions: instructions.to_string(), llm }
    }

    /// The prompt that asks the model to critique `task_output`.
    pub fn critique_prompt(&self, task_output: &str) -> (prompt: String)
        ensures
            prompt@ == "Evaluate the following output based on these instructions:\nInstructions: "@
                + self.instructions@ + "\nOutput: "@ + task_output@
                + "\nPlease provide a critique and determine if it's valid."@,
    {
        let mut prompt = "Evaluate the following output based on these instructions:\nInstructions: ".to_string();
        prompt.append(self.instructions.as_str());
        prompt.append("\nOutput: ");
        prompt.append(task_output);
        prompt.append("\nPlease provide a critique and determine if it's valid.");
        prompt
    }
}

} // verus!
