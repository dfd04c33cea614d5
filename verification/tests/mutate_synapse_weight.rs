use aei_framework::{
    application::{
        perturb, MutateRandomSynapseWeightCommand, MutateRandomSynapseWeightError,
        MutateRandomSynapseWeightHandler, Query, QueryHandler, QueryResult,
    },
    domain::{Event, RandomNeuronAdded, RandomSynapseAdded, SynapseWeightMutated},
    infrastructure::{projection::NetworkProjection, EventLog, EventStore},
    Activation,
};
use rand::SeedableRng;
use rand_chacha::ChaCha8Rng;
use rand_distr::{Distribution, Normal};
use uuid::Uuid;

fn id() -> u128 {
    Uuid::new_v4().as_u128()
}

fn fixed(x: f64) -> i64 {
    (x * 1e9).round() as i64
}

/// A sample of the normal distribution with mean zero, in fixed-point units.
fn noise(seed: u64, std_dev: f64) -> i64 {
    let mut rng = ChaCha8Rng::seed_from_u64(seed);
    fixed(Normal::new(0.0, std_dev).unwrap().sample(&mut rng))
}

fn seed_two_neurons(store: &mut EventLog<Event>, n1: u128, n2: u128) {
    let events = [
        Event::RandomNeuronAdded(RandomNeuronAdded { neuron_id: n1, activation: Activation::Identity }),
        Event::RandomNeuronAdded(RandomNeuronAdded { neuron_id: n2, activation: Activation::Identity }),
    ];
    for e in &events {
        store.append(e).unwrap();
    }
}

fn seed_synapse(store: &mut EventLog<Event>, id: u128, from: u128, to: u128) {
    let event = Event::RandomSynapseAdded(RandomSynapseAdded {
        synapse_id: id,
        from,
        to,
        weight: fixed(1.0),
    });
    store.append(&event).unwrap();
}

#[test]
fn mutate_synapse_weight_appends_event() {
    let mut store = EventLog::<Event>::new();
    let n1 = id();
    let n2 = id();
    seed_two_neurons(&mut store, n1, n2);
    let syn_id = id();
    seed_synapse(&mut store, syn_id, n1, n2);

    let rng = ChaCha8Rng::seed_from_u64(7);
    let mut handler = MutateRandomSynapseWeightHandler::new(store, rng).unwrap();
    let mutated_id = handler
        .handle(MutateRandomSynapseWeightCommand { std_dev: fixed(0.5) }, noise(7, 0.5))
        .unwrap();
    assert_eq!(mutated_id, syn_id);

    let events = handler.base.store.load().unwrap();
    match events.last().unwrap() {
        Event::SynapseWeightMutated(SynapseWeightMutated { synapse_id, old_weight, new_weight }) => {
            assert_eq!(*synapse_id, syn_id);
            assert_eq!(*old_weight, fixed(1.0));
            assert_ne!(*new_weight, *old_weight);
            assert_eq!(
                handler.base.network.synapses.get(synapse_id).unwrap().weight,
                *new_weight
            );
        }
        e => panic!("unexpected event {e:?}"),
    }
}

#[test]
fn mutate_synapse_weight_errors_when_empty() {
    let store = EventLog::<Event>::new();
    let rng = ChaCha8Rng::seed_from_u64(8);
    let mut handler = MutateRandomSynapseWeightHandler::new(store, rng).unwrap();
    let res =
        handler.handle(MutateRandomSynapseWeightCommand { std_dev: fixed(0.1) }, noise(8, 0.1));
    assert!(matches!(res, Err(MutateRandomSynapseWeightError::NoSynapseAvailable)));
}

#[test]
fn mutate_synapse_weight_event_replay() {
    let mut store = EventLog::<Event>::new();
    let n1 = id();
    let n2 = id();
    seed_two_neurons(&mut store, n1, n2);
    let syn_id = id();
    seed_synapse(&mut store, syn_id, n1, n2);

    let rng = ChaCha8Rng::seed_from_u64(9);
    let mut handler = MutateRandomSynapseWeightHandler::new(store, rng).unwrap();
    handler
        .handle(MutateRandomSynapseWeightCommand { std_dev: fixed(0.5) }, noise(9, 0.5))
        .unwrap();

    let mut replay_store = handler.base.store;
    let events = replay_store.load().unwrap();
    let net = aei_framework::DomainNetwork::hydrate(&events);
    let last_weight = match events.last().unwrap() {
        Event::SynapseWeightMutated(SynapseWeightMutated { new_weight, .. }) => *new_weight,
        e => panic!("unexpected event {e:?}"),
    };
    assert_eq!(net.synapses.get(&syn_id).unwrap().weight, last_weight);

    let projection = NetworkProjection::from_events(&events);
    let handler = QueryHandler::new(&projection);
    match handler.handle(Query::GetSynapse { id: syn_id }) {
        QueryResult::Synapse(Some(s)) => assert_eq!(s.weight, last_weight),
        _ => panic!("synapse not found"),
    }
}

#[test]
fn negative_standard_deviation_is_rejected_before_anything_is_persisted() {
    let mut store = EventLog::<Event>::new();
    seed_two_neurons(&mut store, 1, 2);
    seed_synapse(&mut store, 3, 1, 2);
    let mut handler =
        MutateRandomSynapseWeightHandler::new(store, ChaCha8Rng::seed_from_u64(1)).unwrap();
    let res = handler.handle(MutateRandomSynapseWeightCommand { std_dev: fixed(-1.0) }, 5);
    assert_eq!(res, Err(MutateRandomSynapseWeightError::InvalidStdDev));
    assert_eq!(handler.base.store.len(), 3);
    assert_eq!(handler.base.network.synapses[&3].weight, fixed(1.0));
    let res = handler.handle(MutateRandomSynapseWeightCommand { std_dev: 0 }, 5);
    assert_eq!(res, Err(MutateRandomSynapseWeightError::InvalidStdDev));
    assert_eq!(handler.base.store.len(), 3);
}

#[test]
fn invalid_standard_deviation_comes_before_an_empty_network() {
    let mut handler = MutateRandomSynapseWeightHandler::new(
        EventLog::<Event>::new(),
        ChaCha8Rng::seed_from_u64(1),
    )
    .unwrap();
    let res = handler.handle(MutateRandomSynapseWeightCommand { std_dev: -1 }, 0);
    assert_eq!(res, Err(MutateRandomSynapseWeightError::InvalidStdDev));
}

#[test]
fn noise_is_added_and_saturates() {
    assert_eq!(perturb(1_000_000_000, 250_000_000), 1_250_000_000);
    assert_eq!(perturb(-5, 3), -2);
    assert_eq!(perturb(i64::MAX, 1), i64::MAX);
    assert_eq!(perturb(i64::MIN, -1), i64::MIN);
    assert_eq!(perturb(i64::MAX, i64::MIN), -1);

    let mut store = EventLog::<Event>::new();
    seed_two_neurons(&mut store, 1, 2);
    seed_synapse(&mut store, 3, 1, 2);
    let mut handler =
        MutateRandomSynapseWeightHandler::new(store, ChaCha8Rng::seed_from_u64(1)).unwrap();
    assert_eq!(handler.mutate(4, 1), Err(MutateRandomSynapseWeightError::NoSynapseAvailable));
    assert_eq!(handler.base.store.len(), 3);
    assert_eq!(handler.mutate(3, -250_000_000), Ok(3));
    assert_eq!(handler.base.network.synapses[&3].weight, 750_000_000);
    assert_eq!(
        handler.base.store.records[3],
        Event::SynapseWeightMutated(SynapseWeightMutated {
            synapse_id: 3,
            old_weight: 1_000_000_000,
            new_weight: 750_000_000,
        })
    );
}
