use aei_framework::{
    infrastructure::projection::CuriosityScoreProjection, Activation, CuriosityScope,
    CuriosityScoreUpdated, DomainNetwork, Event, EventLog, EventStore, RandomNeuronAdded,
    RandomNeuronRemoved, RecalculateCuriosityScoreCommand, RecalculateCuriosityScoreHandler,
};
use uuid::Uuid;

#[test]
fn curiosity_score_event_and_projection() {
    let mut store = EventLog::<Event>::new();
    let neuron_id = Uuid::new_v4().as_u128();
    let event =
        Event::RandomNeuronAdded(RandomNeuronAdded { neuron_id, activation: Activation::Identity });
    store.append(&event).unwrap();

    let mut handler = RecalculateCuriosityScoreHandler::new(store).unwrap();
    let cmd = RecalculateCuriosityScoreCommand {
        target_ids: vec![neuron_id],
        scope: CuriosityScope::Neuron,
    };
    let events = handler.handle(cmd).unwrap();
    assert!(matches!(
        events.first(),
        Some(Event::CuriosityScoreUpdated(CuriosityScoreUpdated { target_id, .. })) if *target_id == neuron_id
    ));
    let mut store = handler.store;
    let events = store.load().unwrap();
    let projection = CuriosityScoreProjection::from_events(&events);
    let score = projection.get(neuron_id).expect("score present");
    assert!(score <= 1_000_000_000);
    let net = DomainNetwork::hydrate(&events);
    let neuron = net.neurons.get(&neuron_id).expect("neuron exists");
    assert_eq!(neuron.curiosity_score, score);
}

#[test]
fn compute_score_decreases_with_occurrences() {
    let id = Uuid::new_v4().as_u128();
    let events = vec![
        Event::RandomNeuronAdded(RandomNeuronAdded { neuron_id: id, activation: Activation::Identity }),
        Event::RandomNeuronRemoved(RandomNeuronRemoved { neuron_id: id }),
    ];
    let score = RecalculateCuriosityScoreHandler::<EventLog<Event>>::compute_score(&events, id);
    assert!(score < 1_000_000_000);
}

#[test]
fn score_is_one_over_one_plus_occurrences() {
    let events = vec![
        Event::RandomNeuronAdded(RandomNeuronAdded { neuron_id: 1, activation: Activation::Identity }),
        Event::RandomNeuronAdded(RandomNeuronAdded { neuron_id: 2, activation: Activation::Identity }),
        Event::SynapseCreated { id: 3, from: 1, to: 2, weight: 0 },
        Event::CuriosityScoreUpdated(CuriosityScoreUpdated { target_id: 1, old_score: 0, new_score: 1 }),
    ];
    let compute = RecalculateCuriosityScoreHandler::<EventLog<Event>>::compute_score;
    assert_eq!(compute(&events, 9), 1_000_000_000);
    assert_eq!(compute(&events, 3), 500_000_000);
    assert_eq!(compute(&events, 2), 333_333_333);
    assert_eq!(compute(&events, 1), 250_000_000);
    assert_eq!(compute(&[], 1), 1_000_000_000);
    let touches = RecalculateCuriosityScoreHandler::<EventLog<Event>>::touches;
    assert!(touches(&events[2], 1));
    assert!(touches(&events[2], 2));
    assert!(touches(&events[2], 3));
    assert!(!touches(&events[2], 4));
    assert!(!touches(&events[0], 2));
}

#[test]
fn recalculating_all_on_an_empty_graph_emits_nothing() {
    let mut handler = RecalculateCuriosityScoreHandler::new(EventLog::<Event>::new()).unwrap();
    let emitted = handler
        .handle(RecalculateCuriosityScoreCommand { target_ids: vec![], scope: CuriosityScope::All })
        .unwrap();
    assert!(emitted.is_empty());
    assert_eq!(handler.store.len(), 0);
}

#[test]
fn recalculation_counts_its_own_earlier_updates() {
    let mut store = EventLog::<Event>::new();
    store
        .append(&Event::RandomNeuronAdded(RandomNeuronAdded {
            neuron_id: 1,
            activation: Activation::Identity,
        }))
        .unwrap();
    let mut handler = RecalculateCuriosityScoreHandler::new(store).unwrap();
    let command =
        || RecalculateCuriosityScoreCommand { target_ids: vec![1], scope: CuriosityScope::Neuron };
    let first = handler.handle(command()).unwrap();
    assert_eq!(
        first,
        vec![Event::CuriosityScoreUpdated(CuriosityScoreUpdated {
            target_id: 1,
            old_score: 0,
            new_score: 500_000_000,
        })]
    );
    let second = handler.handle(command()).unwrap();
    assert_eq!(
        second,
        vec![Event::CuriosityScoreUpdated(CuriosityScoreUpdated {
            target_id: 1,
            old_score: 500_000_000,
            new_score: 333_333_333,
        })]
    );
    assert_eq!(handler.network.neurons[&1].curiosity_score, 333_333_333);
    assert_eq!(handler.stored_score(1), 333_333_333);
    assert_eq!(handler.stored_score(2), 0);
    assert_eq!(handler.store.len(), 3);
}

#[test]
fn repeated_target_is_updated_once() {
    let mut store = EventLog::<Event>::new();
    store
        .append(&Event::RandomNeuronAdded(RandomNeuronAdded {
            neuron_id: 1,
            activation: Activation::Identity,
        }))
        .unwrap();
    let mut handler = RecalculateCuriosityScoreHandler::new(store).unwrap();
    let emitted = handler
        .handle(RecalculateCuriosityScoreCommand {
            target_ids: vec![1, 1, 7],
            scope: CuriosityScope::Synapse,
        })
        .unwrap();
    // The second turn of 1 finds the score already stored; 7 is no target
    // of the network, so its update is emitted but changes nothing.
    assert_eq!(emitted.len(), 2);
    assert_eq!(
        emitted[1],
        Event::CuriosityScoreUpdated(CuriosityScoreUpdated {
            target_id: 7,
            old_score: 0,
            new_score: 1_000_000_000,
        })
    );
    assert_eq!(handler.network.neurons[&1].curiosity_score, 500_000_000);
}

#[test]
fn scope_all_addresses_every_neuron_and_synapse() {
    let mut store = EventLog::<Event>::new();
    for e in [
        Event::RandomNeuronAdded(RandomNeuronAdded { neuron_id: 1, activation: Activation::Identity }),
        Event::RandomNeuronAdded(RandomNeuronAdded { neuron_id: 2, activation: Activation::Identity }),
        Event::SynapseCreated { id: 3, from: 1, to: 2, weight: 0 },
    ] {
        store.append(&e).unwrap();
    }
    let mut handler = RecalculateCuriosityScoreHandler::new(store).unwrap();
    let mut targets = handler.resolve_targets(RecalculateCuriosityScoreCommand {
        target_ids: vec![42],
        scope: CuriosityScope::All,
    });
    targets.sort();
    assert_eq!(targets, vec![1, 2, 3]);
    let emitted = handler
        .handle(RecalculateCuriosityScoreCommand { target_ids: vec![], scope: CuriosityScope::All })
        .unwrap();
    assert_eq!(emitted.len(), 3);
    assert_eq!(handler.network.neurons[&1].curiosity_score, 333_333_333);
    assert_eq!(handler.network.neurons[&2].curiosity_score, 333_333_333);
    assert_eq!(handler.network.synapses[&3].curiosity_score, 500_000_000);
}
