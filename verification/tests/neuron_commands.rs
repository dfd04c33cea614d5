use aei_framework::{
    AddRandomNeuronCommand, AddRandomNeuronHandler, Event, EventLog, EventStore, RandomNeuronAdded,
    RemoveRandomNeuronCommand, RemoveRandomNeuronError, RemoveRandomNeuronHandler,
};
use rand::SeedableRng;
use rand_chacha::ChaCha8Rng;
use uuid::Uuid;

#[test]
fn add_random_neuron_appends_event() {
    let store = EventLog::<Event>::new();
    let rng = ChaCha8Rng::seed_from_u64(42);
    let mut handler = AddRandomNeuronHandler::new(store, rng).unwrap();

    let id = handler.handle(AddRandomNeuronCommand).expect("neuron added");
    assert!(handler.base.network.neurons.contains_key(&id));

    let mut store = EventLog { records: handler.base.store.records.clone() };
    let events = store.load().unwrap();
    match &events[0] {
        Event::RandomNeuronAdded(RandomNeuronAdded { neuron_id, .. }) => {
            assert_eq!(*neuron_id, id)
        }
        e => panic!("unexpected event {e:?}"),
    }
}

#[test]
fn remove_random_neuron_removes_synapses() {
    let store = EventLog::<Event>::new();
    let rng = ChaCha8Rng::seed_from_u64(1);
    let mut add = AddRandomNeuronHandler::new(store, rng).unwrap();
    let id1 = add.handle(AddRandomNeuronCommand).unwrap();
    let id2 = add.handle(AddRandomNeuronCommand).unwrap();

    // Manually connect the two neurons.
    let syn_id = Uuid::new_v4().as_u128();
    let event = Event::SynapseCreated { id: syn_id, from: id1, to: id2, weight: 1_000_000_000 };
    add.base.store.append(&event).unwrap();
    add.base.network.apply(&event);

    // Recreate handler to ensure state is loaded from events.
    let store = add.base.store;
    let rng = ChaCha8Rng::seed_from_u64(2);
    let mut remove = RemoveRandomNeuronHandler::new(store, rng).unwrap();
    let removed_id = remove.handle(RemoveRandomNeuronCommand).expect("removed neuron");
    assert!(!remove.base.network.neurons.contains_key(&removed_id));
    assert!(remove.base.network.synapses.is_empty());
}

#[test]
fn remove_random_neuron_errors_when_empty() {
    let store = EventLog::<Event>::new();
    let rng = ChaCha8Rng::seed_from_u64(7);
    let mut handler = RemoveRandomNeuronHandler::new(store, rng).unwrap();
    let res = handler.handle(RemoveRandomNeuronCommand);
    assert!(matches!(res, Err(RemoveRandomNeuronError::NoNeuronAvailable)));
    assert_eq!(handler.base.store.len(), 0);
}

#[test]
fn neuron_commands_event_replay_reconstructs_state() {
    let store = EventLog::<Event>::new();
    let rng = ChaCha8Rng::seed_from_u64(5);
    let mut add = AddRandomNeuronHandler::new(store, rng).unwrap();
    let id = add.handle(AddRandomNeuronCommand).unwrap();

    let store = add.base.store;
    let rng = ChaCha8Rng::seed_from_u64(6);
    let mut remove = RemoveRandomNeuronHandler::new(store, rng).unwrap();
    remove.handle(RemoveRandomNeuronCommand).unwrap();

    // Load all events and rebuild network
    let mut replay_store = remove.base.store;
    let events = replay_store.load().unwrap();
    let net = aei_framework::DomainNetwork::hydrate(&events);
    assert!(!net.neurons.contains_key(&id));
}

#[test]
fn chosen_removal_cascades() {
    let mut log = EventLog::<Event>::new();
    for e in [
        Event::RandomNeuronAdded(RandomNeuronAdded { neuron_id: 1, activation: aei_framework::Activation::ReLU }),
        Event::RandomNeuronAdded(RandomNeuronAdded { neuron_id: 2, activation: aei_framework::Activation::ReLU }),
        Event::SynapseCreated { id: 3, from: 1, to: 2, weight: 0 },
    ] {
        log.append(&e).unwrap();
    }
    let mut handler = RemoveRandomNeuronHandler::new(log, ChaCha8Rng::seed_from_u64(0)).unwrap();
    assert_eq!(handler.remove(1), Ok(1));
    assert!(handler.base.network.synapses.is_empty());
    assert_eq!(handler.base.network.neurons.len(), 1);
    assert!(handler.base.network.neurons.contains_key(&2));
    assert_eq!(handler.base.store.len(), 4);
}
