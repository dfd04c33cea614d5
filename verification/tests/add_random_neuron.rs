use aei_framework::{
    Activation, AddRandomNeuronCommand, AddRandomNeuronHandler, Command, CommandHandler, Event,
    EventLog,
};
use rand::SeedableRng;
use rand_chacha::ChaCha8Rng;

#[test]
fn add_random_neuron_creates_connection() {
    let mut setup = CommandHandler::new(EventLog::<Event>::new()).unwrap();
    let existing = uuid::Uuid::new_v4().as_u128();
    setup.handle(Command::CreateNeuron { id: existing, activation: Activation::ReLU }).unwrap();

    let mut handler =
        AddRandomNeuronHandler::new(setup.store, ChaCha8Rng::seed_from_u64(3)).unwrap();
    let new_id = handler.handle(AddRandomNeuronCommand).unwrap();

    assert_ne!(new_id, existing);
    let neuron = handler.base.network.neurons.get(&new_id).expect("new neuron missing");
    assert!([Activation::Identity, Activation::Sigmoid, Activation::ReLU, Activation::Tanh]
        .contains(&neuron.activation));

    let syn = handler
        .base
        .network
        .synapses
        .values()
        .find(|s| s.from == new_id || s.to == new_id)
        .expect("no synapse for new neuron");
    let weight = syn.weight as f64 / 1e9;
    assert!(weight >= -1.0 && weight <= 1.0);
}

#[test]
fn first_neuron_stays_alone() {
    let mut handler =
        AddRandomNeuronHandler::new(EventLog::<Event>::new(), ChaCha8Rng::seed_from_u64(8)).unwrap();
    let id = handler.handle(AddRandomNeuronCommand).unwrap();
    assert_eq!(handler.base.network.neurons.len(), 1);
    assert!(handler.base.network.neurons.contains_key(&id));
    assert!(handler.base.network.synapses.is_empty());
    assert_eq!(handler.base.store.len(), 1);
}

#[test]
fn new_neuron_is_attached_to_distinct_others() {
    let mut counts = Vec::new();
    let mut weights = Vec::new();
    let mut inward = 0;
    let mut outward = 0;
    let mut ids = Vec::new();
    for seed in 0..20u64 {
        let mut setup = CommandHandler::new(EventLog::<Event>::new()).unwrap();
        for n in 1..=5u128 {
            setup.handle(Command::CreateNeuron { id: n, activation: Activation::Tanh }).unwrap();
        }
        let mut handler =
            AddRandomNeuronHandler::new(setup.store, ChaCha8Rng::seed_from_u64(seed)).unwrap();
        let id = handler.handle(AddRandomNeuronCommand).unwrap();
        let attached: Vec<_> = handler.base.network.synapses.values().collect();
        assert!((1..=5).contains(&attached.len()));
        counts.push(attached.len());
        ids.push(id);
        for s in &attached {
            weights.push(s.weight);
            ids.push(s.id);
            if s.to == id {
                inward += 1;
            } else {
                outward += 1;
            }
        }
        assert_eq!(handler.base.store.len(), 5 + 1 + attached.len());
        let mut others: Vec<u128> = attached
            .iter()
            .map(|s| {
                assert!(s.from == id || s.to == id);
                assert_ne!(s.from, s.to);
                assert!((-1_000_000_000..=1_000_000_000).contains(&s.weight));
                if s.from == id {
                    s.to
                } else {
                    s.from
                }
            })
            .collect();
        others.sort();
        others.dedup();
        assert_eq!(others.len(), attached.len());
        assert!(others.iter().all(|o| (1..=5).contains(o)));
    }
    // The draws vary: not every neuron is attached to all others, weights
    // and directions differ, and no identifier is drawn twice.
    assert!(counts.iter().any(|&c| c < 5));
    assert!(counts.iter().any(|&c| c > 1));
    assert!(weights.iter().any(|&w| w != 1_000_000_000));
    assert!(weights.iter().any(|&w| w < 0) && weights.iter().any(|&w| w > 0));
    assert!(inward > 0 && outward > 0);
    let drawn = ids.len();
    ids.sort();
    ids.dedup();
    assert_eq!(ids.len(), drawn);
}

#[test]
fn attach_records_the_chosen_direction() {
    let mut setup = CommandHandler::new(EventLog::<Event>::new()).unwrap();
    setup.handle(Command::CreateNeuron { id: 1, activation: Activation::Tanh }).unwrap();
    let mut handler =
        AddRandomNeuronHandler::new(setup.store, ChaCha8Rng::seed_from_u64(0)).unwrap();
    assert_eq!(handler.add_neuron(2, Activation::Sigmoid), Ok(()));
    assert_eq!(handler.attach(10, 2, 1, true, 7), Ok(()));
    assert_eq!(handler.attach(11, 2, 1, false, -7), Ok(()));
    let inward = handler.base.network.synapses[&10];
    assert_eq!((inward.from, inward.to, inward.weight), (1, 2, 7));
    let outward = handler.base.network.synapses[&11];
    assert_eq!((outward.from, outward.to, outward.weight), (2, 1, -7));
    assert_eq!(handler.base.network.neurons[&2].activation, Activation::Sigmoid);
    assert_eq!(
        handler.base.store.records[3],
        Event::SynapseCreated { id: 11, from: 2, to: 1, weight: -7 }
    );
}
