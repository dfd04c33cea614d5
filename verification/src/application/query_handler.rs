//! Handles read-side queries against the projections.

use super::queries::Query;
use crate::domain::{lists_values, Activation, NetworkState, Neuron, Synapse};
use crate::infrastructure::projection::{CuriosityScoreProjection, NetworkProjection};
use vstd::prelude::*;

verus! {

/// Result returned by the [`QueryHandler`].
pub enum QueryResult<'a> {
    /// Single neuron lookup.
    Neuron(Option<&'a Neuron>),
    /// Listing of all neurons.
    Neurons(Vec<&'a Neuron>),
    /// Listing of all synapses.
    Synapses(Vec<&'a Synapse>),
    /// Single synapse lookup.
    Synapse(Option<&'a Synapse>),
    /// Activation lookup.
    Activation(Option<Activation>),
    /// Curiosity score lookup.
    CuriosityScore(Option<u64>),
}

/// The neuron `id` of `state`, if there is one.
pub open spec fn neuron_of(state: NetworkState, id: u128) -> Option<Neuron> {
    if state.neurons.contains_key(id) {
        Some(state.neurons[id])
    } else {
        None
    }
}

/// The synapse `id` of `state`, if there is one.
pub open spec fn synapse_of(state: NetworkState, id: u128) -> Option<Synapse> {
    if state.synapses.contains_key(id) {
        Some(state.synapses[id])
    } else {
        None
    }
}

/// The activation of the neuron `id` of `state`, if there is such a neuron.
pub open spec fn activation_of(state: NetworkState, id: u128) -> Option<Activation> {
    if state.neurons.contains_key(id) {
        Some(state.neurons[id].activation)
    } else {
        None
    }
}

/// The score recorded for `id`; none where no score projection is attached
/// or it holds no score for `id`.
pub open spec fn score_of(scores: Option<Map<u128, u64>>, id: u128) -> Option<u64> {
    match scores {
        Some(m) => if m.contains_key(id) {
            Some(m[id])
        } else {
            None
        },
        None => None,
    }
}

/// The content of an optional reference.
pub open spec fn deref_opt<T>(found: Option<&T>) -> Option<T> {
    match found {
        Some(x) => Some(*x),
        None => None,
    }
}

/// Whether `result` answers `query` over the given network and scores: each
/// query has its own kind of result, read off the projections.
pub open spec fn answers(
    state: NetworkState,
    scores: Option<Map<u128, u64>>,
    query: Query,
    result: QueryResult,
) -> bool {
    match query {
        Query::GetNeuron { id } => result matches QueryResult::Neuron(found) && deref_opt(found)
            == neuron_of(state, id),
        Query::ListNeurons => result matches QueryResult::Neurons(out) && lists_values(
            state.neurons,
            out@.map_values(|n: &Neuron| *n),
        ),
        Query::ListSynapses => result matches QueryResult::Synapses(out) && lists_values(
            state.synapses,
            out@.map_values(|s: &Synapse| *s),
        ),
        Query::GetSynapse { id } => result matches QueryResult::Synapse(found) && deref_opt(found)
            == synapse_of(state, id),
        Query::GetNeuronActivation { id } => result matches QueryResult::Activation(found)
            && found == activation_of(state, id),
        Query::GetCuriosityScore { id } => result matches QueryResult::CuriosityScore(found)
            && found == score_of(scores, id),
    }
}

/// Provides read-only access to the network state.
pub struct QueryHandler<'a> {
    network: &'a NetworkProjection,
    curiosity: Option<&'a CuriosityScoreProjection>,
}

impl<'a> QueryHandler<'a> {
    /// The network that the handler reads.
    pub closed spec fn state(&self) -> NetworkState {
        self.network@
    }

    /// The scores that the handler reads, if a score projection is attached.
    pub closed spec fn scores(&self) -> Option<Map<u128, u64>> {
        match self.curiosity {
            Some(c) => Some(c@),
            None => None,
        }
    }

    /// Creates a new query handler over the given network projection, with
    /// no score projection attached.
    pub fn new(projection: &'a NetworkProjection) -> (handler: Self)
        ensures
            handler.state() == projection@,
            handler.scores() is None,
    {
        QueryHandler { network: projection, curiosity: None }
    }

    /// Attaches a curiosity score projection for score lookups.
    pub fn with_curiosity_projection(self, projection: &'a CuriosityScoreProjection) -> (handler:
        Self)
        ensures
            handler.state() == self.state(),
            handler.scores() == Some(projection@),
    {
        QueryHandler { network: self.network, curiosity: Some(projection) }
    }

    /// Executes a query and returns what the projections hold.
    pub fn handle(&self, query: Query) -> (result: QueryResult<'a>)
        ensures
            answers(self.state(), self.scores(), query, result),
    {
        match query {
            Query::GetNeuron { id } => QueryResult::Neuron(self.network.neuron(id)),
            Query::ListNeurons => QueryResult::Neurons(self.network.neurons()),
            Query::ListSynapses => QueryResult::Synapses(self.network.synapses()),
            Query::GetSynapse { id } => QueryResult::Synapse(self.network.synapse(id)),
            Query::GetNeuronActivation { id } => QueryResult::Activation(
                self.network.activation(id),
            ),
            Query::GetCuriosityScore { id } => QueryResult::CuriosityScore(self.curiosity_score(id)),
        }
    }

    /// Fetches a neuron directly.
    pub fn neuron(&self, id: u128) -> (found: Option<&'a Neuron>)
        ensures
            deref_opt(found) == neuron_of(self.state(), id),
    {
        self.network.neuron(id)
    }

    /// Fetches a synapse directly.
    pub fn synapse(&self, id: u128) -> (found: Option<&'a Synapse>)
        ensures
            deref_opt(found) == synapse_of(self.state(), id),
    {
        self.network.synapse(id)
    }

    /// Fetches a neuron's activation directly.
    pub fn activation(&self, id: u128) -> (found: Option<Activation>)
        ensures
            found == activation_of(self.state(), id),
    {
        self.network.activation(id)
    }

    /// Fetches a curiosity score directly; none where no score projection
    /// is attached.
    pub fn curiosity_score(&self, id: u128) -> (found: Option<u64>)
        ensures
            found == score_of(self.scores(), id),
    {
        match self.curiosity {
            Some(c) => c.get(id),
            None => None,
        }
    }
}

} // verus!
