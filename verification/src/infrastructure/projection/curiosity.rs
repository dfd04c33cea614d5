//! Projection storing curiosity scores for quick lookup.

use crate::domain::Event;
use std::collections::HashMap;
use vstd::prelude::*;

verus! {

broadcast use vstd::std_specs::hash::group_hash_axioms;

/// The scores after one event: a score update overwrites the score of its
/// target, every other event changes nothing.
pub open spec fn record_score(scores: Map<u128, u64>, event: Event) -> Map<u128, u64> {
    match event {
        Event::CuriosityScoreUpdated(e) => scores.insert(e.target_id, e.new_score),
        _ => scores,
    }
}

/// The scores after the events of `events`, in order: the last update of
/// each target wins.
pub open spec fn scores_after(scores: Map<u128, u64>, events: Seq<Event>) -> Map<u128, u64>
    decreases events.len(),
{
    if events.len() == 0 {
        scores
    } else {
        record_score(scores_after(scores, events.drop_last()), events.last())
    }
}

/// Read model mapping identifiers to curiosity scores.
#[derive(Debug)]
pub struct CuriosityScoreProjection {
    scores: HashMap<u128, u64>,
}

impl View for CuriosityScoreProjection {
    type V = Map<u128, u64>;

    closed spec fn view(&self) -> Map<u128, u64> {
        self.scores@
    }
}

impl Default for CuriosityScoreProjection {
    fn default() -> (projection: Self)
        ensures
            projection@ == Map::<u128, u64>::empty(),
    {
        CuriosityScoreProjection { scores: HashMap::new() }
    }
}

impl CuriosityScoreProjection {
    /// Builds the projection by replaying events.
    pub fn from_events(events: &[Event]) -> (projection: Self)
        ensures
            projection@ == scores_after(Map::empty(), events@),
    {
        let mut projection = CuriosityScoreProjection::default();
        let mut i: usize = 0;
        while i < events.len()
            invariant
                i <= events.len(),
                projection@ == scores_after(Map::empty(), events@.take(i as int)),
            decreases events.len() - i,
        {
            projection.apply(&events[i]);
            assert(events@.take(i + 1).drop_last() == events@.take(i as int));
            i = i + 1;
        }
        assert(events@.take(events.len() as int) == events@);
        projection
    }

    /// Applies a new event: a score update is recorded, anything else ignored.
    pub fn apply(&mut self, event: &Event)
        ensures
            final(self)@ == record_score(old(self)@, *event),
    {
        if let Event::CuriosityScoreUpdated(e) = event {
            self.scores.insert(e.target_id, e.new_score);
        }
    }

    /// Returns the curiosity score recorded for the given identifier.
    pub fn get(&self, id: u128) -> (score: Option<u64>)
        ensures
            score == if self@.contains_key(id) {
                Some(self@[id])
            } else {
                None
            },
    {
        match self.scores.get(&id) {
            Some(s) => Some(*s),
            None => None,
        }
    }
}

} // verus!
