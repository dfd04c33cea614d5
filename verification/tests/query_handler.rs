use aei_framework::{
    application::{Query, QueryHandler, QueryResult},
    domain::{Event, RandomNeuronAdded},
    infrastructure::projection::NetworkProjection,
    Activation,
};
use uuid::Uuid;

fn id() -> u128 {
    Uuid::new_v4().as_u128()
}

#[test]
fn convenience_methods_return_expected_values() {
    let neuron_a = id();
    let neuron_b = id();
    let synapse_id = id();
    let events = vec![
        Event::RandomNeuronAdded(RandomNeuronAdded { neuron_id: neuron_a, activation: Activation::ReLU }),
        Event::RandomNeuronAdded(RandomNeuronAdded {
            neuron_id: neuron_b,
            activation: Activation::Sigmoid,
        }),
        Event::SynapseCreated { id: synapse_id, from: neuron_a, to: neuron_b, weight: 500_000_000 },
    ];
    let projection = NetworkProjection::from_events(&events);
    let handler = QueryHandler::new(&projection);

    let neuron = handler.neuron(neuron_a).expect("neuron missing");
    assert_eq!(neuron.activation, Activation::ReLU);
    assert!(handler.neuron(id()).is_none());

    let synapse = handler.synapse(synapse_id).expect("synapse missing");
    assert_eq!(synapse.from, neuron_a);
    assert_eq!(synapse.to, neuron_b);
    assert!(handler.synapse(id()).is_none());

    assert_eq!(handler.activation(neuron_a), Some(Activation::ReLU));
    assert_eq!(handler.activation(id()), None);
}

#[test]
fn every_query_has_its_own_kind_of_result() {
    let events = vec![
        Event::RandomNeuronAdded(RandomNeuronAdded { neuron_id: 1, activation: Activation::ReLU }),
        Event::RandomNeuronAdded(RandomNeuronAdded { neuron_id: 2, activation: Activation::Tanh }),
        Event::SynapseCreated { id: 3, from: 1, to: 2, weight: 9 },
    ];
    let projection = NetworkProjection::from_events(&events);
    let handler = QueryHandler::new(&projection);
    assert!(matches!(handler.handle(Query::ListNeurons), QueryResult::Neurons(v) if v.len() == 2));
    assert!(matches!(handler.handle(Query::ListSynapses), QueryResult::Synapses(v) if v.len() == 1 && v[0].id == 3));
    assert!(matches!(handler.handle(Query::GetSynapse { id: 3 }), QueryResult::Synapse(Some(s)) if s.weight == 9));
    assert!(matches!(handler.handle(Query::GetSynapse { id: 4 }), QueryResult::Synapse(None)));
    assert!(matches!(
        handler.handle(Query::GetNeuronActivation { id: 2 }),
        QueryResult::Activation(Some(Activation::Tanh))
    ));
    assert!(matches!(handler.handle(Query::GetNeuron { id: 9 }), QueryResult::Neuron(None)));
}

#[test]
fn unattached_score_projection_yields_no_score() {
    let events = vec![Event::RandomNeuronAdded(RandomNeuronAdded {
        neuron_id: 1,
        activation: Activation::ReLU,
    })];
    let projection = NetworkProjection::from_events(&events);
    let handler = QueryHandler::new(&projection);
    assert_eq!(handler.curiosity_score(1), None);
    assert!(matches!(
        handler.handle(Query::GetCuriosityScore { id: 1 }),
        QueryResult::CuriosityScore(None)
    ));
}
