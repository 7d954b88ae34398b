use vstd::prelude::*;
use crate::agent::{Agent, State};
use crate::environment::Environment;

verus! {

/// A group of agents and the shared snapshot of their states.
pub struct Swarm {
    pub agents: Vec<Agent>,
    pub environment: Environment,
}

/// The states of the agents, in agent order.
pub open spec fn agent_states(agents: Seq<Agent>) -> Seq<State> {
    agents.map_values(|a: Agent| a.state)
}

impl Swarm {
    /// `count` fresh agents with ids `0..count`, and a snapshot of `count`
    /// agents at rest.
    pub fn new(count: usize) -> (s: Swarm)
        ensures
            s.agents@ == Seq::new(count as nat, |i: int| Agent::spec_new(i as usize)),
            s.environment@ == Seq::new(count as nat, |i: int| State::spec_zero()),
    {
        let mut agents: Vec<Agent> = Vec::new();
        let mut i: usize = 0;
        while i < count
            invariant
                i <= count,
                agents@ =~= Seq::new(i as nat, |k: int| Agent::spec_new(k as usize)),
            decreases count - i,
        {
            agents.push(Agent::new(i));
            i = i + 1;
        }
        let environment = Environment::new(count);
        Swarm { agents, environment }
    }

    /// Copies the agents' own states into the shared snapshot.
    pub fn update_environment(&mut self)
        ensures
            final(self).environment@ == agent_states(old(self).agents@),
            final(self).agents@ == old(self).agents@,
    {
        let mut states: Vec<State> = Vec::new();
        let mut i: usize = 0;
        while i < self.agents.len()
            invariant
                i <= self.agents.len(),
                states@ =~= agent_states(self.agents@).subrange(0, i as int),
            decreases self.agents.len() - i,
        {
            states.push(self.agents[i].state);
            i = i + 1;
        }
        assert(states@ =~= agent_states(self.agents@));
        self.environment.set_states(states);
    }

    pub fn agent_count(&self) -> (n: usize)
        ensures
            n == self.agents@.len(),
    {
        self.agents.len()
    }

    /// Clears the regulator memory of every agent; ids, states, models and
    /// the snapshot stay as they are.
    pub fn reset(&mut self)
        ensures
            final(self).agents@ == old(self).agents@.map_values(|a: Agent| a.spec_reset()),
            final(self).environment@ == old(self).environment@,
            final(self).agents@.len() == old(self).agents@.len(),
            forall|k: int|
                0 <= k < old(self).agents@.len() ==> {
                    &&& (#[trigger] final(self).agents@[k]).motion_controller.is_reset()
                    &&& final(self).agents@[k].id == old(self).agents@[k].id
                    &&& final(self).agents@[k].state == old(self).agents@[k].state
                    &&& final(self).agents@[k].model == old(self).agents@[k].model
                    &&& final(self).agents@[k].boid_controller == old(self).agents@[k].boid_controller
                },
    {
        let ghost start = self.agents@;
        let mut i: usize = 0;
        while i < self.agents.len()
            invariant
                i <= self.agents.len(),
                self.agents.len() == start.len(),
                forall|k: int| 0 <= k < i ==> #[trigger] self.agents@[k] == start[k].spec_reset(),
                forall|k: int| i <= k < start.len() ==> #[trigger] self.agents@[k] == start[k],
                self.environment@ == old(self).environment@,
            decreases self.agents.len() - i,
        {
            let mut a = self.agents[i];
            a.reset();
            self.agents.set(i, a);
            i = i + 1;
        }
        assert(self.agents@ =~= start.map_values(|a: Agent| a.spec_reset()));
    }
}

/// After a reset every agent's regulators are without memory, and the ids,
/// states and models of the agents are those they had.
pub proof fn lemma_reset_keeps_agents(agents: Seq<Agent>)
    ensures
        ({
            let after = agents.map_values(|a: Agent| a.spec_reset());
            &&& after.len() == agents.len()
            &&& forall|k: int|
                0 <= k < agents.len() ==> {
                    &&& (#[trigger] after[k]).motion_controller.is_reset()
                    &&& after[k].id == agents[k].id
                    &&& after[k].state == agents[k].state
                    &&& after[k].model == agents[k].model
                    &&& after[k].boid_controller == agents[k].boid_controller
                }
            &&& agent_states(after) == agent_states(agents)
        }),
{
    let after = agents.map_values(|a: Agent| a.spec_reset());
    assert(agent_states(after) =~= agent_states(agents));
}

/// A new swarm's snapshot already matches its agents: updating the snapshot
/// right away changes nothing.
pub proof fn lemma_new_swarm_consistent(count: nat)
    requires
        count <= usize::MAX,
    ensures
        agent_states(Seq::new(count, |i: int| Agent::spec_new(i as usize))) == Seq::new(
            count,
            |i: int| State::spec_zero(),
        ),
{
    assert(agent_states(Seq::new(count, |i: int| Agent::spec_new(i as usize))) =~= Seq::new(
        count,
        |i: int| State::spec_zero(),
    ));
}

} // verus!
