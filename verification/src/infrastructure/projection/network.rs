//! Read model reflecting the current network state via applied events.

use crate::domain::{lists_values, replay, Activation, Event, Network, NetworkState, Neuron, Synapse};
use vstd::prelude::*;

verus! {

broadcast use vstd::std_specs::hash::group_hash_axioms;

/// In-memory projection of the network aggregate.
#[derive(Debug)]
pub struct NetworkProjection {
    network: Network,
}

impl View for NetworkProjection {
    type V = NetworkState;

    closed spec fn view(&self) -> NetworkState {
        self.network@
    }
}

impl Default for NetworkProjection {
    fn default() -> (projection: Self)
        ensures
            projection@ == NetworkState::empty(),
    {
        NetworkProjection { network: Network::default() }
    }
}

impl NetworkProjection {
    /// Builds the projection by replaying the provided events.
    pub fn from_events(events: &[Event]) -> (projection: Self)
        ensures
            projection@ == replay(events@),
    {
        NetworkProjection { network: Network::hydrate(events) }
    }

    /// Applies a new event to update the projection.
    pub fn apply(&mut self, event: &Event)
        ensures
            final(self)@ == old(self)@.apply(*event),
    {
        self.network.apply(event);
    }

    /// Fetches a neuron by its identifier.
    pub fn neuron(&self, id: u128) -> (found: Option<&Neuron>)
        ensures
            match found {
                Some(n) => self@.neurons.contains_key(id) && *n == self@.neurons[id],
                None => !self@.neurons.contains_key(id),
            },
    {
        self.network.neurons.get(&id)
    }

    /// Returns all neurons contained in the projection.
    pub fn neurons(&self) -> (out: Vec<&Neuron>)
        ensures
            lists_values(self@.neurons, out@.map_values(|n: &Neuron| *n)),
    {
        self.network.neurons()
    }

    /// Returns all synapses contained in the projection.
    pub fn synapses(&self) -> (out: Vec<&Synapse>)
        ensures
            lists_values(self@.synapses, out@.map_values(|s: &Synapse| *s)),
    {
        self.network.synapses()
    }

    /// Fetches a synapse by its identifier.
    pub fn synapse(&self, id: u128) -> (found: Option<&Synapse>)
        ensures
            match found {
                Some(s) => self@.synapses.contains_key(id) && *s == self@.synapses[id],
                None => !self@.synapses.contains_key(id),
            },
    {
        self.network.synapses.get(&id)
    }

    /// Fetches the activation of a neuron by the neuron's identifier.
    pub fn activation(&self, id: u128) -> (found: Option<Activation>)
        ensures
            match found {
                Some(a) => self@.neurons.contains_key(id) && a == self@.neurons[id].activation,
                None => !self@.neurons.contains_key(id),
            },
    {
        match self.network.neurons.get(&id) {
            Some(n) => Some(n.activation),
            None => None,
        }
    }
}

} // verus!
