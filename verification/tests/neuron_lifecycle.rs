use aei_framework::{
    Activation, Command, CommandHandler, DomainNetwork, Event, EventLog, EventStore, NeuronAdded,
    NeuronRemoved,
};
use uuid::Uuid;

fn id() -> u128 {
    Uuid::new_v4().as_u128()
}

#[test]
fn create_neuron_appends_event() {
    let store = EventLog::<Event>::new();
    let mut handler = CommandHandler::new(store).unwrap();

    let id = id();
    handler.handle(Command::CreateNeuron { id, activation: Activation::Identity }).unwrap();
    assert!(handler.network.neurons.contains_key(&id));

    let mut store = EventLog { records: handler.store.records.clone() };
    let events = store.load().unwrap();
    match events.last().unwrap() {
        Event::NeuronAdded(NeuronAdded { neuron_id, .. }) => assert_eq!(*neuron_id, id),
        e => panic!("unexpected event {e:?}"),
    }
}

#[test]
fn remove_neuron_removes_synapses() {
    let store = EventLog::<Event>::new();
    let mut handler = CommandHandler::new(store).unwrap();

    let id1 = id();
    let id2 = id();
    handler.handle(Command::CreateNeuron { id: id1, activation: Activation::Identity }).unwrap();
    handler.handle(Command::CreateNeuron { id: id2, activation: Activation::Identity }).unwrap();

    let syn_id = id();
    handler
        .handle(Command::CreateSynapse { id: syn_id, from: id1, to: id2, weight: 1_000_000_000 })
        .unwrap();
    assert!(handler.network.synapses.contains_key(&syn_id));

    handler.handle(Command::RemoveNeuron { id: id1 }).unwrap();
    assert!(!handler.network.neurons.contains_key(&id1));
    assert!(handler.network.synapses.is_empty());

    let events = handler.store.load().unwrap();
    match events.last().unwrap() {
        Event::NeuronRemoved(NeuronRemoved { neuron_id }) => assert_eq!(*neuron_id, id1),
        e => panic!("unexpected event {e:?}"),
    }
}

#[test]
fn neuron_lifecycle_event_replay_reconstructs_state() {
    let store = EventLog::<Event>::new();
    let mut handler = CommandHandler::new(store).unwrap();

    let id = id();
    handler.handle(Command::CreateNeuron { id, activation: Activation::Identity }).unwrap();
    handler.handle(Command::RemoveNeuron { id }).unwrap();

    let mut reader = EventLog { records: handler.store.records.clone() };
    let events = reader.load().unwrap();
    let net = DomainNetwork::hydrate(&events);
    assert!(!net.neurons.contains_key(&id));
}
