//! Application layer coordinating commands and queries.

mod add_random_neuron;
mod add_random_synapse;
mod command_handler;
mod commands;
mod common;
pub mod memory;
mod mutate_random_neuron_activation;
mod mutate_random_synapse_weight;
mod queries;
mod query_handler;
mod random;
mod recalculate_curiosity_score;
mod remove_random_neuron;
mod remove_random_synapse;
mod set_synapse_weight;

pub use common::{emits, emits_one, replays, unchanged, NetworkHandlerBase};
pub use add_random_neuron::{
    added, added_neuron_is_connected, adds_neuron, attaches, has_others, AddRandomNeuronCommand,
    AddRandomNeuronError, AddRandomNeuronHandler,
};
pub use add_random_synapse::{
    adds_synapse, candidate_pairs, grows_by_admitted, has_candidate, success_grows_by_admitted,
    successful_commands_keep_simple, AddRandomSynapseCommand, AddRandomSynapseError, AddRandomSynapseHandler,
};
pub use remove_random_neuron::{
    RemoveRandomNeuronCommand, RemoveRandomNeuronError, RemoveRandomNeuronHandler,
};
pub use remove_random_synapse::{
    RemoveRandomSynapseCommand, RemoveRandomSynapseError, RemoveRandomSynapseHandler,
};
pub use mutate_random_neuron_activation::{
    eligible, eligible_neurons, has_incoming, has_outgoing, mutates_activation,
    MutateNeuronActivationError, MutateRandomNeuronActivationCommand,
    MutateRandomNeuronActivationHandler,
};
pub use mutate_random_synapse_weight::{
    perturb, perturbed, MutateRandomSynapseWeightCommand, MutateRandomSynapseWeightError,
    MutateRandomSynapseWeightHandler,
};
pub use command_handler::CommandHandler;
pub use commands::Command;
pub use set_synapse_weight::{
    SetSynapseWeightCommand, SetSynapseWeightError, SetSynapseWeightHandler,
};
pub use recalculate_curiosity_score::{
    carried_out, empty_network_needs_no_update, occurrences, recalculated, recalculation, referenced_score_is_below_one,
    referencing, resolves, score_for, score_shrinks_with_occurrences, CuriosityScope,
    RecalculateCuriosityScoreCommand, RecalculateCuriosityScoreHandler,
};
pub use queries::Query;
pub use query_handler::{
    activation_of, answers, deref_opt, neuron_of, score_of, synapse_of, QueryHandler, QueryResult,
};
