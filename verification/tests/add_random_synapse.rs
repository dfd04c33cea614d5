use aei_framework::{
    application::{
        candidate_pairs, AddRandomSynapseCommand, AddRandomSynapseError, AddRandomSynapseHandler,
        Command, CommandHandler, Query, QueryHandler, QueryResult,
    },
    infrastructure::projection::NetworkProjection,
    Activation, Event, EventLog,
};
use rand::SeedableRng;
use rand_chacha::ChaCha8Rng;
use uuid::Uuid;

fn id() -> u128 {
    Uuid::new_v4().as_u128()
}

#[test]
fn add_random_synapse_via_handler() {
    let store = EventLog::<Event>::new();
    let mut cmd = CommandHandler::new(store).unwrap();
    let n1 = id();
    let n2 = id();
    cmd.handle(Command::CreateNeuron { id: n1, activation: Activation::Identity }).unwrap();
    cmd.handle(Command::CreateNeuron { id: n2, activation: Activation::Identity }).unwrap();

    let store = cmd.store;
    let rng = ChaCha8Rng::seed_from_u64(7);
    let mut handler = AddRandomSynapseHandler::new(store, rng).unwrap();
    let syn_id = handler.handle(AddRandomSynapseCommand).unwrap();
    let syn = handler.base.network.synapses.get(&syn_id).unwrap();
    assert_ne!(syn.from, syn.to);
    assert!((-1.0..=1.0).contains(&(syn.weight as f64 / 1e9)));

    let projection = NetworkProjection::from_events(&handler.base.store.records);
    let query = QueryHandler::new(&projection);
    match query.handle(Query::ListSynapses) {
        QueryResult::Synapses(list) => assert!(list.iter().any(|s| s.id == syn_id)),
        _ => panic!("unexpected query result"),
    }

    // Reload handler to ensure event persistence.
    let store = EventLog { records: handler.base.store.records.clone() };
    let handler2 = AddRandomSynapseHandler::new(store, ChaCha8Rng::seed_from_u64(7)).unwrap();
    assert!(handler2.base.network.synapses.contains_key(&syn_id));
}

#[test]
fn fails_when_no_connection_possible() {
    let store = EventLog::<Event>::new();
    let mut cmd = CommandHandler::new(store).unwrap();
    let n1 = id();
    let n2 = id();
    cmd.handle(Command::CreateNeuron { id: n1, activation: Activation::Identity }).unwrap();
    cmd.handle(Command::CreateNeuron { id: n2, activation: Activation::Identity }).unwrap();
    let s1 = id();
    cmd.handle(Command::CreateSynapse { id: s1, from: n1, to: n2, weight: 500_000_000 }).unwrap();
    let s2 = id();
    cmd.handle(Command::CreateSynapse { id: s2, from: n2, to: n1, weight: -500_000_000 }).unwrap();

    let store = cmd.store;
    let mut handler = AddRandomSynapseHandler::new(store, ChaCha8Rng::seed_from_u64(9)).unwrap();
    let res = handler.handle(AddRandomSynapseCommand);
    assert!(matches!(res, Err(AddRandomSynapseError::NoAvailableConnection)));
    assert_eq!(handler.base.store.len(), 4);
}

#[test]
fn fails_with_insufficient_neurons() {
    let store = EventLog::<Event>::new();
    let mut handler = AddRandomSynapseHandler::new(store, ChaCha8Rng::seed_from_u64(1)).unwrap();
    let res = handler.handle(AddRandomSynapseCommand);
    assert!(matches!(res, Err(AddRandomSynapseError::NotEnoughNeurons)));
}

#[test]
fn candidate_pairs_are_the_unconnected_ordered_pairs() {
    let mut cmd = CommandHandler::new(EventLog::<Event>::new()).unwrap();
    for n in 1..=3u128 {
        cmd.handle(Command::CreateNeuron { id: n, activation: Activation::Identity }).unwrap();
    }
    cmd.handle(Command::CreateSynapse { id: 10, from: 1, to: 2, weight: 0 }).unwrap();
    cmd.handle(Command::CreateSynapse { id: 11, from: 3, to: 3, weight: 0 }).unwrap();
    let mut pairs = candidate_pairs(&cmd.network);
    pairs.sort();
    assert_eq!(pairs, vec![(1, 3), (2, 1), (2, 3), (3, 1), (3, 2)]);
}
