use aei_framework::{
    infrastructure::projection::CuriosityScoreProjection, Activation, CuriosityScoreUpdated, Event,
    RandomNeuronAdded,
};
use uuid::Uuid;

fn score(x: f64) -> u64 {
    (x * 1e9).round() as u64
}

#[test]
fn curiosity_projection_seeds_and_updates_scores() {
    let id = Uuid::new_v4().as_u128();
    let events = vec![Event::CuriosityScoreUpdated(CuriosityScoreUpdated {
        target_id: id,
        old_score: score(0.0),
        new_score: score(0.5),
    })];

    let mut projection = CuriosityScoreProjection::from_events(&events);
    assert_eq!(projection.get(id), Some(score(0.5)));

    let update_event = Event::CuriosityScoreUpdated(CuriosityScoreUpdated {
        target_id: id,
        old_score: score(0.5),
        new_score: score(0.8),
    });
    projection.apply(&update_event);
    assert_eq!(projection.get(id), Some(score(0.8)));

    let unknown_id = Uuid::new_v4().as_u128();
    assert_eq!(projection.get(unknown_id), None);
}

#[test]
fn curiosity_projection_ignores_other_events_and_keeps_the_last_write() {
    let events = vec![
        Event::RandomNeuronAdded(RandomNeuronAdded { neuron_id: 1, activation: Activation::Identity }),
        Event::CuriosityScoreUpdated(CuriosityScoreUpdated { target_id: 1, old_score: 0, new_score: 5 }),
        Event::CuriosityScoreUpdated(CuriosityScoreUpdated { target_id: 2, old_score: 0, new_score: 6 }),
        Event::CuriosityScoreUpdated(CuriosityScoreUpdated { target_id: 1, old_score: 5, new_score: 7 }),
        Event::SynapseRemoved { id: 1 },
    ];
    let projection = CuriosityScoreProjection::from_events(&events);
    assert_eq!(projection.get(1), Some(7));
    assert_eq!(projection.get(2), Some(6));
    assert_eq!(projection.get(3), None);
    assert_eq!(CuriosityScoreProjection::default().get(1), None);
}
