use vstd::prelude::*;
use crate::agent::State;

verus! {

/// Snapshot of the states of all agents, indexed by agent id.
pub struct Environment {
    states: Vec<State>,
}

impl View for Environment {
    type V = Seq<State>;

    closed spec fn view(&self) -> Seq<State> {
        self.states@
    }
}

/// Ids `i < n`, in increasing order, that are not `self_id` and whose
/// `in_range` flag is set.
pub open spec fn neighbor_ids(in_range: Seq<bool>, self_id: usize, n: nat) -> Seq<usize>
    decreases n,
{
    if n == 0 {
        Seq::empty()
    } else {
        let prev = neighbor_ids(in_range, self_id, (n - 1) as nat);
        if (n - 1) != self_id && in_range[n - 1] {
            prev.push((n - 1) as usize)
        } else {
            prev
        }
    }
}

impl Default for Environment {
    fn default() -> (e: Environment)
        ensures
            e@ == Seq::<State>::empty(),
    {
        Environment { states: Vec::new() }
    }
}

impl Environment {
    /// `agent_count` agents, all at rest at the origin.
    pub fn new(agent_count: usize) -> (e: Environment)
        ensures
            e@ == Seq::new(agent_count as nat, |i: int| State::spec_zero()),
    {
        let mut states: Vec<State> = Vec::new();
        let mut i: usize = 0;
        while i < agent_count
            invariant
                i <= agent_count,
                states@ =~= Seq::new(i as nat, |k: int| State::spec_zero()),
            decreases agent_count - i,
        {
            states.push(State::default());
            i = i + 1;
        }
        Environment { states }
    }

    /// Replaces the snapshot by a copy of `states`.
    pub fn update_from_states(&mut self, states: &[State])
        ensures
            final(self)@ == states@,
    {
        self.states.clear();
        let mut i: usize = 0;
        while i < states.len()
            invariant
                i <= states@.len(),
                self.states@ =~= states@.subrange(0, i as int),
            decreases states@.len() - i,
        {
            self.states.push(states[i]);
            i = i + 1;
        }
    }

    /// Replaces the snapshot by `states`.
    pub fn set_states(&mut self, states: Vec<State>)
        ensures
            final(self)@ == states@,
    {
        self.states = states;
    }

    /// The other agents whose `in_range` flag is set, with their states, in
    /// increasing id order. `in_range[i]` tells whether agent `i` lies within
    /// the perception radius of the asking agent.
    pub fn neighbors(&self, in_range: &Vec<bool>, self_id: usize) -> (r: Vec<(usize, &State)>)
        requires
            in_range.len() == self@.len(),
        ensures
            r.len() == neighbor_ids(in_range@, self_id, self@.len()).len(),
            forall|k: int|
                0 <= k < r.len() ==> {
                    &&& (#[trigger] r@[k]).0 == neighbor_ids(in_range@, self_id, self@.len())[k]
                    &&& 0 <= r@[k].0 < self@.len()
                    &&& *r@[k].1 == self@[r@[k].0 as int]
                },
    {
        let mut r: Vec<(usize, &State)> = Vec::new();
        let n = self.states.len();
        let mut i: usize = 0;
        while i < n
            invariant
                n == self@.len(),
                in_range.len() == n,
                i <= n,
                r.len() == neighbor_ids(in_range@, self_id, i as nat).len(),
                forall|k: int|
                    0 <= k < r.len() ==> {
                        &&& (#[trigger] r@[k]).0 == neighbor_ids(in_range@, self_id, i as nat)[k]
                        &&& 0 <= r@[k].0 < i
                        &&& *r@[k].1 == self@[r@[k].0 as int]
                    },
            decreases n - i,
        {
            if i != self_id && in_range[i] {
                r.push((i, &self.states[i]));
            }
            i = i + 1;
        }
        r
    }

    pub fn agent_count(&self) -> (n: usize)
        ensures
            n == self@.len(),
    {
        self.states.len()
    }

    /// The state of agent `id`, if there is such an agent.
    pub fn state(&self, id: usize) -> (s: Option<&State>)
        ensures
            id < self@.len() ==> s == Some(&self@[id as int]),
            id >= self@.len() ==> s is None,
    {
        if id < self.states.len() {
            Some(&self.states[id])
        } else {
            None
        }
    }

    pub fn states(&self) -> (s: &[State])
        ensures
            s@ == self@,
    {
        self.states.as_slice()
    }
}

/// The neighbour list is exactly the other agents in range: an id below `n`
/// is listed iff it is not the asking agent's and its flag is set, and the
/// ids come in strictly increasing order.
pub proof fn lemma_neighbor_ids(in_range: Seq<bool>, self_id: usize, n: nat)
    requires
        n <= in_range.len(),
        n <= usize::MAX,
    ensures
        forall|i: usize|
            i < n ==> (#[trigger] neighbor_ids(in_range, self_id, n).contains(i) <==> (i
                != self_id && in_range[i as int])),
        forall|k: int| 0 <= k < neighbor_ids(in_range, self_id, n).len() ==> #[trigger] neighbor_ids(in_range, self_id, n)[k] < n,
        forall|k1: int, k2: int|
            0 <= k1 < k2 < neighbor_ids(in_range, self_id, n).len() ==> #[trigger] neighbor_ids(
                in_range,
                self_id,
                n,
            )[k1] < #[trigger] neighbor_ids(in_range, self_id, n)[k2],
    decreases n,
{
    if n > 0 {
        let m = (n - 1) as nat;
        lemma_neighbor_ids(in_range, self_id, m);
        let prev = neighbor_ids(in_range, self_id, m);
        let cur = neighbor_ids(in_range, self_id, n);
        let pushed = m != self_id && in_range[m as int];
        if pushed {
            assert(cur == prev.push(m as usize));
        } else {
            assert(cur == prev);
        }
        assert forall|k: int| 0 <= k < cur.len() implies #[trigger] cur[k] < n by {
            if k < prev.len() {
                assert(cur[k] == prev[k]);
            }
        }
        assert forall|k1: int, k2: int| 0 <= k1 < k2 < cur.len() implies #[trigger] cur[k1]
            < #[trigger] cur[k2] by {
            assert(cur[k1] == prev[k1]);
            if k2 < prev.len() {
                assert(cur[k2] == prev[k2]);
            } else {
                assert(prev[k1] < m);
            }
        }
        assert forall|i: usize| i < n implies (#[trigger] cur.contains(i) <==> (i != self_id
            && in_range[i as int])) by {
            if i < m {
                assert(prev.contains(i) <==> (i != self_id && in_range[i as int]));
                if cur.contains(i) {
                    let k = choose|k: int| 0 <= k < cur.len() && cur[k] == i;
                    if k < prev.len() {
                        assert(prev[k] == i);
                        assert(prev.contains(i));
                    } else {
                        assert(cur[k] == m as usize);
                        assert(false);
                    }
                }
                if prev.contains(i) {
                    let k = choose|k: int| 0 <= k < prev.len() && prev[k] == i;
                    assert(cur[k] == i);
                    assert(cur.contains(i));
                }
            } else {
                assert(i == m);
                if pushed {
                    assert(cur[cur.len() - 1] == i);
                    assert(cur.contains(i));
                } else if cur.contains(i) {
                    let k = choose|k: int| 0 <= k < cur.len() && cur[k] == i;
                    assert(prev[k] < m);
                    assert(false);
                }
            }
        }
    }
}

} // verus!
