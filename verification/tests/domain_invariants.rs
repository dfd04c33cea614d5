use aei_framework::{Activation, DomainNetwork, Event, NeuronAdded, NeuronRemoved};
use uuid::Uuid;

fn id() -> u128 {
    Uuid::new_v4().as_u128()
}

fn fixed(x: f64) -> i64 {
    (x * 1e9).round() as i64
}

// Ensure domain rules such as synapse cleanup are respected.
#[test]
fn removing_neuron_cleans_up_synapses() {
    let n1 = id();
    let n2 = id();
    let s = id();

    let events = vec![
        Event::NeuronAdded(NeuronAdded { neuron_id: n1, activation: Activation::Identity }),
        Event::NeuronAdded(NeuronAdded { neuron_id: n2, activation: Activation::Identity }),
        Event::SynapseCreated { id: s, from: n1, to: n2, weight: fixed(1.0) },
        Event::NeuronRemoved(NeuronRemoved { neuron_id: n1 }),
    ];

    let net = DomainNetwork::hydrate(&events);
    assert!(!net.neurons.contains_key(&n1));
    assert!(net.neurons.contains_key(&n2));
    assert!(net.synapses.is_empty());
}

// Synapses referencing unknown neurons should be ignored.
#[test]
fn synapse_with_unknown_neuron_is_ignored() {
    let n1 = id();
    let events = vec![
        Event::NeuronAdded(NeuronAdded { neuron_id: n1, activation: Activation::Identity }),
        Event::SynapseCreated { id: id(), from: n1, to: id(), weight: fixed(1.0) },
    ];

    let net = DomainNetwork::hydrate(&events);
    assert!(net.synapses.is_empty());
}

#[test]
fn hydrating_twice_gives_the_same_network() {
    let n1 = id();
    let n2 = id();
    let s = id();
    let events = vec![
        Event::NeuronAdded(NeuronAdded { neuron_id: n1, activation: Activation::ReLU }),
        Event::NeuronAdded(NeuronAdded { neuron_id: n2, activation: Activation::Tanh }),
        Event::SynapseCreated { id: s, from: n1, to: n2, weight: fixed(0.25) },
    ];
    let first = DomainNetwork::hydrate(&events);
    let second = DomainNetwork::hydrate(&events);
    assert_eq!(first.neurons, second.neurons);
    assert_eq!(first.synapses, second.synapses);
    assert_eq!(first.synapses[&s].weight, 250_000_000);
    assert_eq!(first.neurons[&n1].curiosity_score, 0);
}

#[test]
fn inapplicable_creation_changes_no_synapse() {
    let n1 = id();
    let n2 = id();
    let s = id();
    let mut events = vec![
        Event::NeuronAdded(NeuronAdded { neuron_id: n1, activation: Activation::Identity }),
        Event::NeuronAdded(NeuronAdded { neuron_id: n2, activation: Activation::Identity }),
        Event::SynapseCreated { id: s, from: n1, to: n2, weight: fixed(1.0) },
    ];
    let without = DomainNetwork::hydrate(&events);
    events.push(Event::SynapseCreated { id: id(), from: id(), to: n2, weight: fixed(1.0) });
    let with = DomainNetwork::hydrate(&events);
    assert_eq!(with.synapses, without.synapses);
    assert_eq!(with.neurons, without.neurons);
}

#[test]
fn cascade_leaves_the_other_neuron() {
    let a = 1u128;
    let b = 2u128;
    let events = vec![
        Event::NeuronAdded(NeuronAdded { neuron_id: a, activation: Activation::Identity }),
        Event::NeuronAdded(NeuronAdded { neuron_id: b, activation: Activation::Identity }),
        Event::SynapseCreated { id: 3, from: a, to: b, weight: 5 },
        Event::NeuronRemoved(NeuronRemoved { neuron_id: a }),
    ];
    let net = DomainNetwork::hydrate(&events);
    assert_eq!(net.neurons.len(), 1);
    assert!(net.neurons.contains_key(&b));
    assert_eq!(net.synapses.len(), 0);
    assert_eq!(net.neurons().len(), 1);
    assert_eq!(net.synapses().len(), 0);
}
