//! The network aggregate: neurons and synapses, changed only by events.

use super::events::Event;
use super::maps::key_list;
use super::neuron::Neuron;
use super::synapse::Synapse;
use super::activation::Activation;
use std::collections::HashMap;
use vstd::prelude::*;

verus! {

broadcast use vstd::std_specs::hash::group_hash_axioms;

/// Mathematical content of a [`Network`]: its neurons and synapses by identifier.
pub struct NetworkState {
    pub neurons: Map<u128, Neuron>,
    pub synapses: Map<u128, Synapse>,
}

/// Whether some synapse leads from `from` to `to`.
pub open spec fn connected(synapses: Map<u128, Synapse>, from: u128, to: u128) -> bool {
    exists|k: u128| #[trigger]
        synapses.contains_key(k) && synapses[k].from == from && synapses[k].to == to
}

/// Whether the synapses hold no self-loop and no two synapses with the same
/// ordered pair of endpoints.
pub open spec fn simple(synapses: Map<u128, Synapse>) -> bool {
    &&& forall|k: u128| #[trigger] synapses.contains_key(k) ==> synapses[k].from != synapses[k].to
    &&& forall|j: u128, k: u128|
        #[trigger] synapses.contains_key(j) && #[trigger] synapses.contains_key(k) && j != k ==> !(
        synapses[j].from == synapses[k].from && synapses[j].to == synapses[k].to)
}

/// The synapses of `synapses` that do not have `neuron` as an endpoint.
pub open spec fn detached(synapses: Map<u128, Synapse>, neuron: u128) -> Map<u128, Synapse> {
    Map::new(
        |k: u128| synapses.contains_key(k) && !synapses[k].touches(neuron),
        |k: u128| synapses[k],
    )
}

impl NetworkState {
    /// The state without neurons or synapses.
    pub open spec fn empty() -> Self {
        NetworkState { neurons: Map::empty(), synapses: Map::empty() }
    }

    /// Inserts, or replaces, the neuron `id` with a zero curiosity score.
    pub open spec fn add_neuron(self, id: u128, activation: Activation) -> Self {
        NetworkState {
            neurons: self.neurons.insert(id, Neuron { id, activation, curiosity_score: 0 }),
            ..self
        }
    }

    /// Removes the neuron `id` and every synapse that has it as an endpoint.
    pub open spec fn remove_neuron(self, id: u128) -> Self {
        NetworkState { neurons: self.neurons.remove(id), synapses: detached(self.synapses, id) }
    }

    /// Inserts the synapse if both endpoints exist; otherwise changes nothing.
    pub open spec fn create_synapse(self, id: u128, from: u128, to: u128, weight: i64) -> Self {
        if self.neurons.contains_key(from) && self.neurons.contains_key(to) {
            NetworkState {
                synapses: self.synapses.insert(
                    id,
                    Synapse { id, from, to, weight, curiosity_score: 0 },
                ),
                ..self
            }
        } else {
            self
        }
    }

    /// Whether a randomly created synapse `from -> to` is admitted: both
    /// endpoints exist, they differ, and no synapse leads from `from` to `to` yet.
    pub open spec fn admits(self, from: u128, to: u128) -> bool {
        &&& self.neurons.contains_key(from)
        &&& self.neurons.contains_key(to)
        &&& from != to
        &&& !connected(self.synapses, from, to)
    }

    /// Inserts the synapse if it is admitted; otherwise changes nothing.
    pub open spec fn add_random_synapse(self, id: u128, from: u128, to: u128, weight: i64) -> Self {
        if self.admits(from, to) {
            NetworkState {
                synapses: self.synapses.insert(
                    id,
                    Synapse { id, from, to, weight, curiosity_score: 0 },
                ),
                ..self
            }
        } else {
            self
        }
    }

    /// Removes the synapse `id`, if present.
    pub open spec fn remove_synapse(self, id: u128) -> Self {
        NetworkState { synapses: self.synapses.remove(id), ..self }
    }

    /// Replaces the weight of the synapse `id`, if present.
    pub open spec fn set_weight(self, id: u128, weight: i64) -> Self {
        if self.synapses.contains_key(id) {
            NetworkState {
                synapses: self.synapses.insert(id, Synapse { weight, ..self.synapses[id] }),
                ..self
            }
        } else {
            self
        }
    }

    /// Replaces the activation of the neuron `id`, if present.
    pub open spec fn set_activation(self, id: u128, activation: Activation) -> Self {
        if self.neurons.contains_key(id) {
            NetworkState {
                neurons: self.neurons.insert(id, Neuron { activation, ..self.neurons[id] }),
                ..self
            }
        } else {
            self
        }
    }

    /// Replaces the curiosity score of the neuron `id`; if there is no such
    /// neuron, of the synapse `id`; if there is neither, changes nothing.
    pub open spec fn set_curiosity(self, id: u128, score: u64) -> Self {
        if self.neurons.contains_key(id) {
            NetworkState {
                neurons: self.neurons.insert(
                    id,
                    Neuron { curiosity_score: score, ..self.neurons[id] },
                ),
                ..self
            }
        } else if self.synapses.contains_key(id) {
            NetworkState {
                synapses: self.synapses.insert(
                    id,
                    Synapse { curiosity_score: score, ..self.synapses[id] },
                ),
                ..self
            }
        } else {
            self
        }
    }

    /// The curiosity score stored for the neuron `id`; if there is no such
    /// neuron, for the synapse `id`; if there is neither, zero.
    pub open spec fn curiosity_of(self, id: u128) -> u64 {
        if self.neurons.contains_key(id) {
            self.neurons[id].curiosity_score
        } else if self.synapses.contains_key(id) {
            self.synapses[id].curiosity_score
        } else {
            0
        }
    }

    /// The state after one event. Total: an event whose target is absent
    /// changes nothing.
    pub open spec fn apply(self, event: Event) -> Self {
        match event {
            Event::RandomNeuronAdded(e) => self.add_neuron(e.neuron_id, e.activation),
            Event::RandomNeuronRemoved(e) => self.remove_neuron(e.neuron_id),
            Event::NeuronAdded(e) => self.add_neuron(e.neuron_id, e.activation),
            Event::NeuronRemoved(e) => self.remove_neuron(e.neuron_id),
            Event::SynapseCreated { id, from, to, weight } => self.create_synapse(
                id,
                from,
                to,
                weight,
            ),
            Event::SynapseRemoved { id } => self.remove_synapse(id),
            Event::RandomSynapseAdded(e) => self.add_random_synapse(
                e.synapse_id,
                e.from,
                e.to,
                e.weight,
            ),
            Event::RandomSynapseRemoved(e) => self.remove_synapse(e.synapse_id),
            Event::SynapseWeightMutated(e) => self.set_weight(e.synapse_id, e.new_weight),
            Event::SynapseWeightSet(e) => self.set_weight(e.synapse_id, e.new_weight),
            Event::NeuronActivationMutated(e) => self.set_activation(e.neuron_id, e.new_activation),
            Event::CuriosityScoreUpdated(e) => self.set_curiosity(e.target_id, e.new_score),
        }
    }

    /// The state after the events of `events`, in order.
    pub open spec fn apply_all(self, events: Seq<Event>) -> Self
        decreases events.len(),
    {
        if events.len() == 0 {
            self
        } else {
            self.apply_all(events.drop_last()).apply(events.last())
        }
    }
}

/// Whether `out` lists the values of `map`, each key once, in some order.
pub open spec fn lists_values<V>(map: Map<u128, V>, out: Seq<V>) -> bool {
    exists|keys: Seq<u128>|
        {
            &&& keys.no_duplicates()
            &&& keys.to_set() == map.dom()
            &&& #[trigger] keys.len() == out.len()
            &&& forall|i: int| 0 <= i < out.len() ==> out[i] == map[#[trigger] keys[i]]
        }
}

/// The state obtained by folding `events` from the empty state.
pub open spec fn replay(events: Seq<Event>) -> NetworkState {
    NetworkState::empty().apply_all(events)
}

/// Aggregate root holding all neurons and synapses.
#[derive(Debug, Clone)]
pub struct Network {
    /// Neurons by identifier.
    pub neurons: HashMap<u128, Neuron>,
    /// Synapses by identifier.
    pub synapses: HashMap<u128, Synapse>,
}

impl View for Network {
    type V = NetworkState;

    open spec fn view(&self) -> NetworkState {
        NetworkState { neurons: self.neurons@, synapses: self.synapses@ }
    }
}

impl Default for Network {
    fn default() -> (net: Self)
        ensures
            net@ == NetworkState::empty(),
    {
        Network { neurons: HashMap::new(), synapses: HashMap::new() }
    }
}

impl Network {
    /// Rebuilds a network by replaying `events` from the empty state.
    pub fn hydrate(events: &[Event]) -> (net: Self)
        ensures
            net@ == replay(events@),
    {
        let mut net = Network::default();
        let mut i: usize = 0;
        while i < events.len()
            invariant
                i <= events.len(),
                net@ == replay(events@.take(i as int)),
            decreases events.len() - i,
        {
            net.apply(&events[i]);
            assert(events@.take(i + 1).drop_last() == events@.take(i as int));
            i = i + 1;
        }
        assert(events@.take(events.len() as int) == events@);
        net
    }

    /// Applies one event. An event whose target is absent changes nothing.
    pub fn apply(&mut self, event: &Event)
        ensures
            final(self)@ == old(self)@.apply(*event),
    {
        match event {
            Event::RandomNeuronAdded(e) => {
                self.neurons.insert(e.neuron_id, Neuron::with_id(e.neuron_id, e.activation));
            },
            Event::RandomNeuronRemoved(e) => {
                self.remove_neuron(e.neuron_id);
            },
            Event::NeuronAdded(e) => {
                self.neurons.insert(e.neuron_id, Neuron::with_id(e.neuron_id, e.activation));
            },
            Event::NeuronRemoved(e) => {
                self.remove_neuron(e.neuron_id);
            },
            Event::SynapseCreated { id, from, to, weight } => {
                if self.neurons.contains_key(from) && self.neurons.contains_key(to) {
                    self.synapses.insert(*id, Synapse::with_id(*id, *from, *to, *weight));
                }
            },
            Event::SynapseRemoved { id } => {
                self.synapses.remove(id);
            },
            Event::RandomSynapseAdded(e) => {
                if self.neurons.contains_key(&e.from) && self.neurons.contains_key(&e.to) && e.from
                    != e.to && !self.is_connected(e.from, e.to) {
                    self.synapses.insert(
                        e.synapse_id,
                        Synapse::with_id(e.synapse_id, e.from, e.to, e.weight),
                    );
                }
            },
            Event::RandomSynapseRemoved(e) => {
                self.synapses.remove(&e.synapse_id);
            },
            Event::SynapseWeightMutated(e) => {
                self.set_weight(e.synapse_id, e.new_weight);
            },
            Event::SynapseWeightSet(e) => {
                self.set_weight(e.synapse_id, e.new_weight);
            },
            Event::NeuronActivationMutated(e) => {
                let found = match self.neurons.get(&e.neuron_id) {
                    Some(n) => Some(*n),
                    None => None,
                };
                if let Some(n) = found {
                    self.neurons.insert(
                        e.neuron_id,
                        Neuron { activation: e.new_activation, ..n },
                    );
                }
            },
            Event::CuriosityScoreUpdated(e) => {
                self.set_curiosity(e.target_id, e.new_score);
            },
        }
    }

    /// Whether some synapse leads from `from` to `to`.
    pub fn is_connected(&self, from: u128, to: u128) -> (found: bool)
        ensures
            found == connected(self@.synapses, from, to),
    {
        let ids = key_list(&self.synapses);
        let mut i: usize = 0;
        while i < ids.len()
            invariant
                i <= ids.len(),
                ids@.to_set() == self.synapses@.dom(),
                forall|j: int|
                    0 <= j < i ==> !(self.synapses@[#[trigger] ids@[j]].from == from
                        && self.synapses@[ids@[j]].to == to),
            decreases ids.len() - i,
        {
            assert(ids@.to_set().contains(ids@[i as int]));
            if let Some(s) = self.synapses.get(&ids[i]) {
                if s.from == from && s.to == to {
                    return true;
                }
            }
            i = i + 1;
        }
        assert forall|k: u128| #[trigger]
            self.synapses@.contains_key(k) implies !(self.synapses@[k].from == from
            && self.synapses@[k].to == to) by {
            assert(ids@.to_set().contains(k));
            let j = choose|j: int| 0 <= j < ids@.len() && ids@[j] == k;
            assert(ids@[j] == k);
        }
        false
    }

    /// Lists all neurons, in the order the map yields them.
    pub fn neurons(&self) -> (out: Vec<&Neuron>)
        ensures
            lists_values(self@.neurons, out@.map_values(|n: &Neuron| *n)),
    {
        let ids = key_list(&self.neurons);
        let mut out: Vec<&Neuron> = Vec::new();
        let mut i: usize = 0;
        while i < ids.len()
            invariant
                i <= ids.len(),
                ids@.to_set() == self.neurons@.dom(),
                out@.len() == i,
                forall|j: int| 0 <= j < i ==> *out@[j] == self.neurons@[#[trigger] ids@[j]],
            decreases ids.len() - i,
        {
            assert(ids@.to_set().contains(ids@[i as int]));
            if let Some(n) = self.neurons.get(&ids[i]) {
                out.push(n);
            }
            i = i + 1;
        }
        assert(ids@.len() == out@.map_values(|n: &Neuron| *n).len());
        out
    }

    /// Lists all synapses, in the order the map yields them.
    pub fn synapses(&self) -> (out: Vec<&Synapse>)
        ensures
            lists_values(self@.synapses, out@.map_values(|s: &Synapse| *s)),
    {
        let ids = key_list(&self.synapses);
        let mut out: Vec<&Synapse> = Vec::new();
        let mut i: usize = 0;
        while i < ids.len()
            invariant
                i <= ids.len(),
                ids@.to_set() == self.synapses@.dom(),
                out@.len() == i,
                forall|j: int| 0 <= j < i ==> *out@[j] == self.synapses@[#[trigger] ids@[j]],
            decreases ids.len() - i,
        {
            assert(ids@.to_set().contains(ids@[i as int]));
            if let Some(s) = self.synapses.get(&ids[i]) {
                out.push(s);
            }
            i = i + 1;
        }
        assert(ids@.len() == out@.map_values(|s: &Synapse| *s).len());
        out
    }

    fn remove_neuron(&mut self, neuron_id: u128)
        ensures
            final(self)@ == old(self)@.remove_neuron(neuron_id),
    {
        self.neurons.remove(&neuron_id);
        let ghost before = self.synapses@;
        let ids = key_list(&self.synapses);
        let mut i: usize = 0;
        while i < ids.len()
            invariant
                i <= ids.len(),
                ids@.to_set() == before.dom(),
                self.neurons@ == old(self).neurons@.remove(neuron_id),
                self.synapses@ =~= Map::new(
                    |k: u128|
                        before.contains_key(k) && !(before[k].touches(neuron_id) && ids@.take(
                            i as int,
                        ).contains(k)),
                    |k: u128| before[k],
                ),
            decreases ids.len() - i,
        {
            let id = ids[i];
            assert(ids@.to_set().contains(id));
            let doomed = match self.synapses.get(&id) {
                Some(s) => s.from == neuron_id || s.to == neuron_id,
                None => false,
            };
            if doomed {
                self.synapses.remove(&id);
            }
            proof {
                let prev = ids@.take(i as int);
                let next = ids@.take(i + 1);
                assert(next == prev.push(id));
                assert forall|k: u128| next.contains(k) <==> (prev.contains(k) || k == id) by {
                    if next.contains(k) {
                        let j = choose|j: int| 0 <= j < next.len() && next[j] == k;
                        if j < prev.len() {
                            assert(prev[j] == k);
                        }
                    }
                    if prev.contains(k) {
                        let j = choose|j: int| 0 <= j < prev.len() && prev[j] == k;
                        assert(next[j] == k);
                    }
                    if k == id {
                        assert(next[i as int] == k);
                    }
                }
            }
            i = i + 1;
        }
        proof {
            assert(ids@.take(ids.len() as int) == ids@);
            assert forall|k: u128| before.contains_key(k) implies ids@.contains(k) by {
                assert(ids@.to_set().contains(k));
            }
            assert(self.synapses@ =~= detached(before, neuron_id));
        }
    }

    fn set_weight(&mut self, synapse_id: u128, weight: i64)
        ensures
            final(self)@ == old(self)@.set_weight(synapse_id, weight),
    {
        let found = match self.synapses.get(&synapse_id) {
            Some(s) => Some(*s),
            None => None,
        };
        if let Some(s) = found {
            self.synapses.insert(synapse_id, Synapse { weight, ..s });
        }
    }

    fn set_curiosity(&mut self, target_id: u128, score: u64)
        ensures
            final(self)@ == old(self)@.set_curiosity(target_id, score),
    {
        let neuron = match self.neurons.get(&target_id) {
            Some(n) => Some(*n),
            None => None,
        };
        if let Some(n) = neuron {
            self.neurons.insert(target_id, Neuron { curiosity_score: score, ..n });
        } else {
            let synapse = match self.synapses.get(&target_id) {
                Some(s) => Some(*s),
                None => None,
            };
            if let Some(s) = synapse {
                self.synapses.insert(target_id, Synapse { curiosity_score: score, ..s });
            }
        }
    }
}

} // verus!
