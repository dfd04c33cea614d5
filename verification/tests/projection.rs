use aei_framework::{
    application::{Query, QueryHandler, QueryResult},
    domain::{Event, RandomNeuronAdded},
    infrastructure::projection::NetworkProjection,
    Activation,
};
use uuid::Uuid;

#[test]
fn projection_replays_events_for_queries() {
    let neuron_id = Uuid::new_v4().as_u128();
    let events = vec![Event::RandomNeuronAdded(RandomNeuronAdded {
        neuron_id,
        activation: Activation::ReLU,
    })];
    let projection = NetworkProjection::from_events(&events);
    let handler = QueryHandler::new(&projection);
    match handler.handle(Query::GetNeuron { id: neuron_id }) {
        QueryResult::Neuron(Some(neuron)) => match neuron.activation {
            Activation::ReLU => {}
            _ => panic!("unexpected activation"),
        },
        _ => panic!("neuron not found"),
    }
}

#[test]
fn projection_follows_applied_events() {
    let mut projection = NetworkProjection::default();
    assert!(projection.neurons().is_empty());
    projection.apply(&Event::RandomNeuronAdded(RandomNeuronAdded {
        neuron_id: 4,
        activation: Activation::Sigmoid,
    }));
    projection.apply(&Event::RandomNeuronAdded(RandomNeuronAdded {
        neuron_id: 5,
        activation: Activation::Tanh,
    }));
    projection.apply(&Event::SynapseCreated { id: 6, from: 4, to: 5, weight: -3 });
    assert_eq!(projection.neurons().len(), 2);
    assert_eq!(projection.synapses().len(), 1);
    assert_eq!(projection.synapse(6).unwrap().weight, -3);
    assert_eq!(projection.activation(5), Some(Activation::Tanh));
    assert_eq!(projection.activation(6), None);
    assert!(projection.neuron(6).is_none());
}
