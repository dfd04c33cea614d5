use aei_framework::{
    application::{Query, QueryHandler, QueryResult},
    domain::{Activation, CuriosityScoreUpdated, Event, RandomNeuronAdded},
    infrastructure::projection::{CuriosityScoreProjection, NetworkProjection},
};
use uuid::Uuid;

fn score(x: f64) -> u64 {
    (x * 1e9).round() as u64
}

fn as_real(score: u64) -> f64 {
    score as f64 / 1e9
}

#[test]
fn query_handler_returns_curiosity_score() {
    let id = Uuid::new_v4().as_u128();
    let events = vec![
        Event::RandomNeuronAdded(RandomNeuronAdded { neuron_id: id, activation: Activation::ReLU }),
        Event::CuriosityScoreUpdated(CuriosityScoreUpdated {
            target_id: id,
            old_score: score(0.0),
            new_score: score(0.7),
        }),
    ];
    let network = NetworkProjection::from_events(&events);
    let curiosity = CuriosityScoreProjection::from_events(&events);
    let handler = QueryHandler::new(&network).with_curiosity_projection(&curiosity);

    match handler.handle(Query::GetCuriosityScore { id }) {
        QueryResult::CuriosityScore(Some(score)) => {
            assert!((as_real(score) - 0.7).abs() < f64::EPSILON)
        }
        _ => panic!("score missing"),
    }

    assert_eq!(handler.curiosity_score(id), Some(score(0.7)));
}

#[test]
fn attached_projection_answers_score_queries() {
    let events = vec![
        Event::RandomNeuronAdded(RandomNeuronAdded { neuron_id: 1, activation: Activation::ReLU }),
        Event::CuriosityScoreUpdated(CuriosityScoreUpdated {
            target_id: 1,
            old_score: 0,
            new_score: score(0.42),
        }),
    ];
    let network = NetworkProjection::from_events(&events);
    let curiosity = CuriosityScoreProjection::from_events(&events);
    let handler = QueryHandler::new(&network).with_curiosity_projection(&curiosity);
    assert_eq!(handler.curiosity_score(1), Some(420_000_000));
    assert_eq!(handler.curiosity_score(2), None);
    assert_eq!(handler.activation(1), Some(Activation::ReLU));
}
