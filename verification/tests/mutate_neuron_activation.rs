use aei_framework::{
    application::{
        eligible_neurons, MutateNeuronActivationError, MutateRandomNeuronActivationCommand,
        MutateRandomNeuronActivationHandler, Query, QueryHandler, QueryResult,
    },
    domain::{Activation, Event, NeuronActivationMutated, RandomNeuronAdded},
    infrastructure::{projection::NetworkProjection, EventLog, EventStore},
    DomainNetwork,
};
use rand::SeedableRng;
use rand_chacha::ChaCha8Rng;
use uuid::Uuid;

fn seed_neuron(store: &mut EventLog<Event>, id: u128, activation: Activation) {
    let event = Event::RandomNeuronAdded(RandomNeuronAdded { neuron_id: id, activation });
    store.append(&event).unwrap();
}

#[test]
fn mutate_neuron_activation_appends_event() {
    let mut store = EventLog::<Event>::new();
    let neuron_id = Uuid::new_v4().as_u128();
    seed_neuron(&mut store, neuron_id, Activation::Identity);

    let rng = ChaCha8Rng::seed_from_u64(1);
    let mut handler = MutateRandomNeuronActivationHandler::new(store, rng).unwrap();
    let mutated_id =
        handler.handle(MutateRandomNeuronActivationCommand { exclude_io: false }).unwrap();
    assert_eq!(mutated_id, neuron_id);

    let events = handler.base.store.load().unwrap();
    match events.last().unwrap() {
        Event::NeuronActivationMutated(NeuronActivationMutated {
            neuron_id: id,
            old_activation,
            new_activation,
        }) => {
            assert_eq!(*id, neuron_id);
            assert_eq!(*old_activation, Activation::Identity);
            assert_ne!(*old_activation, *new_activation);
            assert_eq!(
                handler.base.network.neurons.get(id).unwrap().activation,
                *new_activation
            );
        }
        e => panic!("unexpected event {e:?}"),
    }

    let projection = NetworkProjection::from_events(&events);
    let handler = QueryHandler::new(&projection);
    match handler.handle(Query::GetNeuronActivation { id: neuron_id }) {
        QueryResult::Activation(Some(a)) => {
            if let Event::NeuronActivationMutated(NeuronActivationMutated {
                new_activation, ..
            }) = events.last().unwrap()
            {
                assert_eq!(*new_activation, a);
            }
        }
        _ => panic!("activation not found"),
    }
}

#[test]
fn mutate_neuron_activation_errors_when_no_eligible() {
    let mut store = EventLog::<Event>::new();
    let neuron_id = Uuid::new_v4().as_u128();
    seed_neuron(&mut store, neuron_id, Activation::Identity);

    let rng = ChaCha8Rng::seed_from_u64(2);
    let mut handler = MutateRandomNeuronActivationHandler::new(store, rng).unwrap();
    let res = handler.handle(MutateRandomNeuronActivationCommand { exclude_io: true });
    assert!(matches!(res, Err(MutateNeuronActivationError::NoEligibleNeuron)));
}

#[test]
fn mutate_neuron_activation_event_replay() {
    let mut store = EventLog::<Event>::new();
    let neuron_id = Uuid::new_v4().as_u128();
    seed_neuron(&mut store, neuron_id, Activation::Identity);

    let rng = ChaCha8Rng::seed_from_u64(3);
    let mut handler = MutateRandomNeuronActivationHandler::new(store, rng).unwrap();
    handler.handle(MutateRandomNeuronActivationCommand { exclude_io: false }).unwrap();
    let mut replay_store = handler.base.store;
    let events = replay_store.load().unwrap();
    let net = DomainNetwork::hydrate(&events);
    let last_activation = match events.last().unwrap() {
        Event::NeuronActivationMutated(NeuronActivationMutated { new_activation, .. }) => {
            *new_activation
        }
        e => panic!("unexpected event {e:?}"),
    };
    assert_eq!(net.neurons.get(&neuron_id).unwrap().activation, last_activation);

    let projection = NetworkProjection::from_events(&events);
    let handler = QueryHandler::new(&projection);
    match handler.handle(Query::GetNeuronActivation { id: neuron_id }) {
        QueryResult::Activation(Some(a)) => assert_eq!(a, last_activation),
        _ => panic!("activation not found"),
    }
}

#[test]
fn only_inner_neurons_are_eligible_when_boundary_is_excluded() {
    let mut store = EventLog::<Event>::new();
    for n in 1..=3u128 {
        seed_neuron(&mut store, n, Activation::ReLU);
    }
    store.append(&Event::SynapseCreated { id: 10, from: 1, to: 2, weight: 0 }).unwrap();
    store.append(&Event::SynapseCreated { id: 11, from: 2, to: 3, weight: 0 }).unwrap();
    let mut handler =
        MutateRandomNeuronActivationHandler::new(store, ChaCha8Rng::seed_from_u64(4)).unwrap();
    assert_eq!(eligible_neurons(&handler.base.network, true), vec![2]);
    let mut all = eligible_neurons(&handler.base.network, false);
    all.sort();
    assert_eq!(all, vec![1, 2, 3]);
    let id = handler.handle(MutateRandomNeuronActivationCommand { exclude_io: true }).unwrap();
    assert_eq!(id, 2);
    assert_ne!(handler.base.network.neurons[&2].activation, Activation::ReLU);
    assert_eq!(handler.base.network.neurons[&1].activation, Activation::ReLU);
}

#[test]
fn alternatives_are_the_three_other_kinds() {
    assert_eq!(
        Activation::kinds(),
        vec![Activation::Identity, Activation::Sigmoid, Activation::ReLU, Activation::Tanh]
    );
    assert_eq!(
        Activation::Sigmoid.alternatives(),
        vec![Activation::Identity, Activation::ReLU, Activation::Tanh]
    );
    assert_eq!(
        Activation::Tanh.alternatives(),
        vec![Activation::Identity, Activation::Sigmoid, Activation::ReLU]
    );
    assert_eq!(Activation::default(), Activation::Identity);
}

#[test]
fn chosen_mutation_records_old_and_new() {
    let mut store = EventLog::<Event>::new();
    seed_neuron(&mut store, 1, Activation::Sigmoid);
    let mut handler =
        MutateRandomNeuronActivationHandler::new(store, ChaCha8Rng::seed_from_u64(4)).unwrap();
    assert_eq!(
        handler.mutate(2, Activation::Tanh),
        Err(MutateNeuronActivationError::NoEligibleNeuron)
    );
    assert_eq!(handler.base.store.len(), 1);
    assert_eq!(handler.mutate(1, Activation::Tanh), Ok(1));
    assert_eq!(
        handler.base.store.records[1],
        Event::NeuronActivationMutated(NeuronActivationMutated {
            neuron_id: 1,
            old_activation: Activation::Sigmoid,
            new_activation: Activation::Tanh,
        })
    );
    assert_eq!(handler.base.network.neurons[&1].activation, Activation::Tanh);
}
