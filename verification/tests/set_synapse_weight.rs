use aei_framework::{
    application::{Query, QueryHandler, QueryResult},
    domain::{Event, RandomNeuronAdded, RandomSynapseAdded, SynapseWeightSet},
    infrastructure::{projection::NetworkProjection, EventLog, EventStore},
    Activation, SetSynapseWeightCommand, SetSynapseWeightError, SetSynapseWeightHandler,
};
use uuid::Uuid;

fn id() -> u128 {
    Uuid::new_v4().as_u128()
}

fn fixed(x: f64) -> i64 {
    (x * 1e9).round() as i64
}

fn seed_network(store: &mut EventLog<Event>, n1: u128, n2: u128, syn: u128) {
    let events = [
        Event::RandomNeuronAdded(RandomNeuronAdded { neuron_id: n1, activation: Activation::Identity }),
        Event::RandomNeuronAdded(RandomNeuronAdded { neuron_id: n2, activation: Activation::Identity }),
        Event::RandomSynapseAdded(RandomSynapseAdded {
            synapse_id: syn,
            from: n1,
            to: n2,
            weight: fixed(1.0),
        }),
    ];
    for e in &events {
        store.append(e).unwrap();
    }
}

#[test]
fn set_synapse_weight_updates_network() {
    let mut store = EventLog::<Event>::new();
    let n1 = id();
    let n2 = id();
    let syn_id = id();
    seed_network(&mut store, n1, n2, syn_id);

    let mut handler = SetSynapseWeightHandler::new(store).unwrap();
    handler.handle(SetSynapseWeightCommand { synapse_id: syn_id, new_weight: fixed(2.0) }).unwrap();
    assert_eq!(handler.network.synapses.get(&syn_id).unwrap().weight, fixed(2.0));
}

#[test]
fn set_synapse_weight_appends_event() {
    let mut store = EventLog::<Event>::new();
    let n1 = id();
    let n2 = id();
    let syn_id = id();
    seed_network(&mut store, n1, n2, syn_id);

    let mut handler = SetSynapseWeightHandler::new(store).unwrap();
    handler.handle(SetSynapseWeightCommand { synapse_id: syn_id, new_weight: fixed(2.0) }).unwrap();

    let events = handler.store.load().unwrap();
    match events.last().unwrap() {
        Event::SynapseWeightSet(SynapseWeightSet { synapse_id, new_weight, .. }) => {
            assert_eq!(*synapse_id, syn_id);
            assert_eq!(*new_weight, fixed(2.0));
            assert_eq!(handler.network.synapses.get(synapse_id).unwrap().weight, *new_weight);
        }
        e => panic!("unexpected event {e:?}"),
    }
}

#[test]
fn set_synapse_weight_event_replay() {
    let mut store = EventLog::<Event>::new();
    let n1 = id();
    let n2 = id();
    let syn_id = id();
    seed_network(&mut store, n1, n2, syn_id);

    let mut handler = SetSynapseWeightHandler::new(store).unwrap();
    handler.handle(SetSynapseWeightCommand { synapse_id: syn_id, new_weight: fixed(2.0) }).unwrap();

    let events = handler.store.load().unwrap();
    let net = aei_framework::DomainNetwork::hydrate(&events);
    assert_eq!(net.synapses.get(&syn_id).unwrap().weight, fixed(2.0));

    let projection = NetworkProjection::from_events(&events);
    let handler = QueryHandler::new(&projection);
    match handler.handle(Query::GetSynapse { id: syn_id }) {
        QueryResult::Synapse(Some(s)) => assert_eq!(s.weight, fixed(2.0)),
        _ => panic!("synapse not found"),
    }
}

#[test]
fn absent_synapse_is_not_found_and_nothing_is_appended() {
    let mut store = EventLog::<Event>::new();
    seed_network(&mut store, 1, 2, 3);
    let mut handler = SetSynapseWeightHandler::new(store).unwrap();
    let res = handler.handle(SetSynapseWeightCommand { synapse_id: 4, new_weight: 9 });
    assert_eq!(res, Err(SetSynapseWeightError::SynapseNotFound));
    assert_eq!(handler.store.len(), 3);
    assert_eq!(handler.network.synapses[&3].weight, 1_000_000_000);
}

#[test]
fn set_weight_records_the_old_weight() {
    let mut store = EventLog::<Event>::new();
    seed_network(&mut store, 1, 2, 3);
    let mut handler = SetSynapseWeightHandler::new(store).unwrap();
    handler.handle(SetSynapseWeightCommand { synapse_id: 3, new_weight: -4 }).unwrap();
    assert_eq!(
        handler.store.records[3],
        Event::SynapseWeightSet(SynapseWeightSet {
            synapse_id: 3,
            old_weight: 1_000_000_000,
            new_weight: -4,
        })
    );
}
