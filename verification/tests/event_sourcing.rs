use aei_framework::{
    application::{Command, CommandHandler, Query, QueryHandler, QueryResult},
    infrastructure::projection::NetworkProjection,
    Activation, Event, EventLog,
};
use uuid::Uuid;

fn id() -> u128 {
    Uuid::new_v4().as_u128()
}

#[test]
fn add_and_replay_neuron() {
    let store = EventLog::<Event>::new();
    let mut handler = CommandHandler::new(store).unwrap();
    let id = id();
    handler.handle(Command::CreateNeuron { id, activation: Activation::Identity }).unwrap();

    let projection = NetworkProjection::from_events(&handler.store.records);
    let query = QueryHandler::new(&projection);
    match query.handle(Query::GetNeuron { id }) {
        QueryResult::Neuron(Some(n)) => assert_eq!(n.id, id),
        _ => panic!("neuron not found"),
    }

    // Reload from the same events and ensure the neuron persists.
    let store = EventLog { records: handler.store.records.clone() };
    let handler = CommandHandler::new(store).unwrap();
    assert!(handler.network.neurons.get(&id).is_some());
}

#[test]
fn create_and_remove_synapse() {
    let store = EventLog::<Event>::new();
    let mut handler = CommandHandler::new(store).unwrap();

    let n1 = id();
    let n2 = id();
    handler.handle(Command::CreateNeuron { id: n1, activation: Activation::ReLU }).unwrap();
    handler.handle(Command::CreateNeuron { id: n2, activation: Activation::Tanh }).unwrap();

    let syn_id = id();
    handler
        .handle(Command::CreateSynapse { id: syn_id, from: n1, to: n2, weight: 1_000_000_000 })
        .unwrap();
    assert!(handler.network.synapses.get(&syn_id).is_some());

    handler.handle(Command::RemoveSynapse { id: syn_id }).unwrap();
    assert!(handler.network.synapses.get(&syn_id).is_none());
}

#[test]
fn explicit_commands_are_persisted_even_when_they_do_not_apply() {
    let mut handler = CommandHandler::new(EventLog::<Event>::new()).unwrap();
    handler.handle(Command::CreateSynapse { id: 1, from: 2, to: 3, weight: 4 }).unwrap();
    handler.handle(Command::RemoveNeuron { id: 9 }).unwrap();
    assert_eq!(handler.store.len(), 2);
    assert!(handler.network.synapses.is_empty());
    assert!(handler.network.neurons.is_empty());
    assert_eq!(handler.store.records[0], Event::SynapseCreated { id: 1, from: 2, to: 3, weight: 4 });
}
