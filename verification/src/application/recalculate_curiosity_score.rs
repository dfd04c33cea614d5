//! Command and handler to recalculate curiosity scores.
//!
//! The curiosity score of an identifier is `1 / (1 + occurrences)`, where
//! `occurrences` counts the events of the whole history that reference the
//! identifier. It is recomputed from the history every time.

use super::common::{
    emits, lemma_extended_by_nothing, lemma_extended_once_more, record, replays, restore,
};
use crate::domain::laws::apply_all_unfolds;
use crate::domain::{
    key_list, lemma_filter_push, CuriosityScoreUpdated, Event, Network, NetworkState, UNIT,
};
use crate::infrastructure::{loaded, EventStore};
use vstd::prelude::*;

verus! {

/// Scope of targets whose curiosity score should be recomputed.
#[derive(Debug, Clone, Copy, PartialEq, Eq, Structural)]
pub enum CuriosityScope {
    /// Only the provided neuron identifiers.
    Neuron,
    /// Only the provided synapse identifiers.
    Synapse,
    /// All neurons and synapses currently in the network.
    All,
}

/// Command requesting curiosity score recalculation.
#[derive(Debug)]
pub struct RecalculateCuriosityScoreCommand {
    /// Identifiers of targets to update; ignored for the scope `All`.
    pub target_ids: Vec<u128>,
    /// Scope describing the targets.
    pub scope: CuriosityScope,
}

/// Handles [`RecalculateCuriosityScoreCommand`].
pub struct RecalculateCuriosityScoreHandler<S: EventStore> {
    /// Event store used for persistence.
    pub store: S,
    /// Current network state reconstructed from events.
    pub network: Network,
}

/// The predicate that holds of the events that reference `id`.
pub open spec fn referencing(id: u128) -> spec_fn(Event) -> bool {
    |e: Event| e.references(id)
}

/// How many events of `history` reference `id`.
pub open spec fn occurrences(history: Seq<Event>, id: u128) -> nat {
    history.filter(referencing(id)).len()
}

/// The curiosity score for a number of occurrences: `1 / (1 + occurrences)`
/// in fixed-point units, rounded down.
pub open spec fn score_for(occurrences: nat) -> u64 {
    (UNIT as nat / (1 + occurrences)) as u64
}

/// Whether `targets` is what a command with the given scope and identifiers
/// addresses in `state`: the given identifiers as they are, or, for the scope
/// `All`, every neuron once followed by every synapse once.
pub open spec fn resolves(
    state: NetworkState,
    scope: CuriosityScope,
    target_ids: Seq<u128>,
    targets: Seq<u128>,
) -> bool {
    match scope {
        CuriosityScope::Neuron => targets == target_ids,
        CuriosityScope::Synapse => targets == target_ids,
        CuriosityScope::All => exists|neurons: Seq<u128>, synapses: Seq<u128>|
            {
                &&& #[trigger] (neurons + synapses) == targets
                &&& neurons.no_duplicates()
                &&& neurons.to_set() == state.neurons.dom()
                &&& synapses.no_duplicates()
                &&& synapses.to_set() == state.synapses.dom()
            },
    }
}

/// The events that recalculating the targets, in order, emits from `state`:
/// for each target whose recomputed score differs from the score stored when
/// its turn comes, one update from the stored to the recomputed score.
pub open spec fn recalculation(state: NetworkState, history: Seq<Event>, targets: Seq<u128>) -> Seq<
    Event,
>
    decreases targets.len(),
{
    if targets.len() == 0 {
        Seq::empty()
    } else {
        let earlier = recalculation(state, history, targets.drop_last());
        let target_id = targets.last();
        let old_score = state.apply_all(earlier).curiosity_of(target_id);
        let new_score = score_for(occurrences(history, target_id));
        if new_score != old_score {
            earlier.push(
                Event::CuriosityScoreUpdated(
                    CuriosityScoreUpdated { target_id, old_score, new_score },
                ),
            )
        } else {
            earlier
        }
    }
}

/// Whether a handler has recalculated the first `done` of `targets` over
/// the history `history`.
pub open spec fn recalculated(
    log_before: Option<Seq<Event>>,
    before: NetworkState,
    history: Seq<Event>,
    targets: Seq<u128>,
    done: int,
    emitted: Seq<Event>,
    log_after: Option<Seq<Event>>,
    after: NetworkState,
) -> bool {
    &&& 0 <= done <= targets.len()
    &&& emitted == recalculation(before, history, targets.take(done))
    &&& emits(log_before, before, emitted, log_after, after)
}

/// Whether a handler has carried out the command: `emitted` is the
/// recalculation of all targets the command addresses if `complete`, of some
/// of the first of them otherwise. The scores are computed over the history
/// that the store returned, which is the stored history where the store
/// states one.
pub open spec fn carried_out(
    log_before: Option<Seq<Event>>,
    before: NetworkState,
    scope: CuriosityScope,
    target_ids: Seq<u128>,
    complete: bool,
    emitted: Seq<Event>,
    log_after: Option<Seq<Event>>,
    after: NetworkState,
) -> bool {
    exists|history: Seq<Event>, targets: Seq<u128>, done: int|
        {
            &&& loaded(log_before, history)
            &&& resolves(before, scope, target_ids, targets)
            &&& #[trigger] recalculated(
                log_before,
                before,
                history,
                targets,
                done,
                emitted,
                log_after,
                after,
            )
            &&& complete ==> done == targets.len()
        }
}

impl<S: EventStore> RecalculateCuriosityScoreHandler<S> {
    /// Whether the network is the replay of the stored history.
    pub open spec fn in_sync(&self) -> bool {
        replays(self.store.log(), self.network@)
    }

    /// Loads the history from `store` to initialize the handler. Fails
    /// exactly when loading fails.
    pub fn new(store: S) -> (r: Result<Self, S::Error>)
        ensures
            store.never_fails() ==> r is Ok,
            r matches Ok(handler) ==> {
                &&& handler.store.log() == store.log()
                &&& handler.store.never_fails() == store.never_fails()
                &&& handler.in_sync()
            },
    {
        let mut store = store;
        match restore(&mut store) {
            Ok(network) => Ok(RecalculateCuriosityScoreHandler { store, network }),
            Err(e) => Err(e),
        }
    }

    /// Recomputes the curiosity score of every target from the whole stored
    /// history, as it is when the command arrives. For each target, in
    /// order, an update is emitted (persisted, then applied) only if the
    /// recomputed score differs from the stored one; the fixed-point
    /// resolution is the tolerance. Returns the emitted events. The first
    /// failure of the store ends the command with that error; what was
    /// emitted before stays.
    pub fn handle(&mut self, cmd: RecalculateCuriosityScoreCommand) -> (r: Result<
        Vec<Event>,
        S::Error,
    >)
        ensures
            final(self).store.never_fails() == old(self).store.never_fails(),
            old(self).store.never_fails() ==> r is Ok,
            old(self).in_sync() ==> final(self).in_sync(),
            match r {
                Ok(events) => carried_out(
                    old(self).store.log(),
                    old(self).network@,
                    cmd.scope,
                    cmd.target_ids@,
                    true,
                    events@,
                    final(self).store.log(),
                    final(self).network@,
                ),
                Err(_) => exists|emitted: Seq<Event>| #[trigger]
                    carried_out(
                        old(self).store.log(),
                        old(self).network@,
                        cmd.scope,
                        cmd.target_ids@,
                        false,
                        emitted,
                        final(self).store.log(),
                        final(self).network@,
                    ),
            },
    {
        let ghost before = self.network@;
        let ghost log_before = self.store.log();
        let ghost scope = cmd.scope;
        let ghost target_ids = cmd.target_ids@;
        let targets = self.resolve_targets(cmd);
        proof {
            assert(targets@.take(0) == Seq::<u128>::empty());
            lemma_extended_by_nothing(log_before);
            assert(before.apply_all(Seq::empty()) == before);
        }
        let fetched = self.store.load();
        let history = match fetched {
            Ok(events) => events,
            Err(e) => {
                proof {
                    let stated = match log_before {
                        Some(history) => history,
                        None => Seq::empty(),
                    };
                    assert(recalculated(
                        log_before,
                        before,
                        stated,
                        targets@,
                        0,
                        Seq::empty(),
                        self.store.log(),
                        self.network@,
                    ));
                }
                assert(carried_out(
                    log_before,
                    before,
                    scope,
                    target_ids,
                    false,
                    Seq::empty(),
                    self.store.log(),
                    self.network@,
                ));
                return Err(e);
            },
        };
        let mut emitted: Vec<Event> = Vec::new();
        let mut i: usize = 0;
        while i < targets.len()
            invariant
                i <= targets.len(),
                loaded(log_before, history@),
                before == old(self).network@,
                log_before == old(self).store.log(),
                scope == cmd.scope,
                target_ids == cmd.target_ids@,
                resolves(before, scope, target_ids, targets@),
                self.store.never_fails() == old(self).store.never_fails(),
                old(self).in_sync() ==> self.in_sync(),
                recalculated(
                    log_before,
                    before,
                    history@,
                    targets@,
                    i as int,
                    emitted@,
                    self.store.log(),
                    self.network@,
                ),
            decreases targets.len() - i,
        {
            let target_id = targets[i];
            let old_score = self.stored_score(target_id);
            let new_score = Self::compute_score(history.as_slice(), target_id);
            proof {
                assert(targets@.take(i + 1).drop_last() == targets@.take(i as int));
                assert(targets@.take(i + 1).last() == target_id);
            }
            if new_score != old_score {
                let event = Event::CuriosityScoreUpdated(
                    CuriosityScoreUpdated { target_id, old_score, new_score },
                );
                let recorded = record(&mut self.store, &mut self.network, &event);
                if let Err(e) = recorded {
                    assert(carried_out(
                        log_before,
                        before,
                        scope,
                        target_ids,
                        false,
                        emitted@,
                        self.store.log(),
                        self.network@,
                    ));
                    return Err(e);
                }
                proof {
                    apply_all_unfolds(before, emitted@, event);
                    lemma_extended_once_more(log_before, emitted@, event);
                }
                emitted.push(event);
            }
            i = i + 1;
        }
        proof {
            assert(targets@.take(targets.len() as int) == targets@);
            assert(carried_out(
                log_before,
                before,
                scope,
                target_ids,
                true,
                emitted@,
                self.store.log(),
                self.network@,
            ));
        }
        Ok(emitted)
    }

    /// The targets that the command addresses.
    pub fn resolve_targets(&self, cmd: RecalculateCuriosityScoreCommand) -> (targets: Vec<u128>)
        ensures
            resolves(self.network@, cmd.scope, cmd.target_ids@, targets@),
    {
        match cmd.scope {
            CuriosityScope::Neuron => cmd.target_ids,
            CuriosityScope::Synapse => cmd.target_ids,
            CuriosityScope::All => {
                let mut targets = key_list(&self.network.neurons);
                let mut synapses = key_list(&self.network.synapses);
                let ghost first = targets@;
                let ghost second = synapses@;
                targets.append(&mut synapses);
                assert(first + second == targets@);
                targets
            },
        }
    }

    /// The curiosity score stored for `id`: that of the neuron `id`; if there
    /// is no such neuron, of the synapse `id`; if there is neither, zero.
    pub fn stored_score(&self, id: u128) -> (score: u64)
        ensures
            score == self.network@.curiosity_of(id),
    {
        match self.network.neurons.get(&id) {
            Some(n) => n.curiosity_score,
            None => match self.network.synapses.get(&id) {
                Some(s) => s.curiosity_score,
                None => 0,
            },
        }
    }

    /// Computes the curiosity score of `id` from the history `events`.
    pub fn compute_score(events: &[Event], id: u128) -> (score: u64)
        ensures
            score == score_for(occurrences(events@, id)),
    {
        let ghost pred = referencing(id);
        let mut count: usize = 0;
        let mut i: usize = 0;
        while i < events.len()
            invariant
                i <= events.len(),
                count <= i,
                pred == referencing(id),
                count == events@.take(i as int).filter(pred).len(),
            decreases events.len() - i,
        {
            proof {
                lemma_filter_push(events@.take(i as int), events@[i as int], pred);
                assert(events@.take(i + 1) == events@.take(i as int).push(events@[i as int]));
            }
            if Self::touches(&events[i], id) {
                count = count + 1;
            }
            i = i + 1;
        }
        assert(events@.take(events.len() as int) == events@);
        let unit: u128 = UNIT as u128;
        let divisor: u128 = 1 + count as u128;
        let score = unit / divisor;
        assert(score <= unit) by (nonlinear_arith)
            requires
                score as int == (unit as int) / (divisor as int),
                divisor >= 1,
        ;
        score as u64
    }

    /// Whether `event` references `id`, as its subject or as an endpoint of
    /// the synapse it creates.
    pub fn touches(event: &Event, id: u128) -> (found: bool)
        ensures
            found == event.references(id),
    {
        match event {
            Event::RandomNeuronAdded(e) => e.neuron_id == id,
            Event::RandomNeuronRemoved(e) => e.neuron_id == id,
            Event::NeuronAdded(e) => e.neuron_id == id,
            Event::NeuronRemoved(e) => e.neuron_id == id,
            Event::SynapseCreated { id: sid, from, to, .. } => *sid == id || *from == id || *to
                == id,
            Event::SynapseRemoved { id: sid } => *sid == id,
            Event::RandomSynapseAdded(e) => e.synapse_id == id || e.from == id || e.to == id,
            Event::RandomSynapseRemoved(e) => e.synapse_id == id,
            Event::SynapseWeightMutated(e) => e.synapse_id == id,
            Event::SynapseWeightSet(e) => e.synapse_id == id,
            Event::NeuronActivationMutated(e) => e.neuron_id == id,
            Event::CuriosityScoreUpdated(e) => e.target_id == id,
        }
    }
}

/// Recalculating every neuron and synapse of a network that holds none
/// emits nothing.
pub proof fn empty_network_needs_no_update(
    log_before: Option<Seq<Event>>,
    before: NetworkState,
    target_ids: Seq<u128>,
    complete: bool,
    emitted: Seq<Event>,
    log_after: Option<Seq<Event>>,
    after: NetworkState,
)
    requires
        carried_out(
            log_before,
            before,
            CuriosityScope::All,
            target_ids,
            complete,
            emitted,
            log_after,
            after,
        ),
        forall|id: u128| !before.neurons.contains_key(id),
        forall|id: u128| !before.synapses.contains_key(id),
    ensures
        emitted.len() == 0,
        log_after == log_before,
        after == before,
{
    let (history, targets, done) = choose|history: Seq<Event>, targets: Seq<u128>, done: int|
        {
            &&& loaded(log_before, history)
            &&& resolves(before, CuriosityScope::All, target_ids, targets)
            &&& #[trigger] recalculated(
                log_before,
                before,
                history,
                targets,
                done,
                emitted,
                log_after,
                after,
            )
            &&& complete ==> done == targets.len()
        };
    let (neurons, synapses) = choose|neurons: Seq<u128>, synapses: Seq<u128>|
        {
            &&& #[trigger] (neurons + synapses) == targets
            &&& neurons.no_duplicates()
            &&& neurons.to_set() == before.neurons.dom()
            &&& synapses.no_duplicates()
            &&& synapses.to_set() == before.synapses.dom()
        };
    if neurons.len() > 0 {
        assert(neurons.to_set().contains(neurons[0]));
    }
    if synapses.len() > 0 {
        assert(synapses.to_set().contains(synapses[0]));
    }
    assert(targets.len() == 0);
    assert(targets.take(done) == Seq::<u128>::empty());
    lemma_extended_by_nothing(log_before);
    assert(before.apply_all(Seq::empty()) == before);
}

/// The score never leaves the unit interval, is `1.0` for an identifier that
/// no event references, and does not grow when occurrences are added.
pub proof fn score_shrinks_with_occurrences(fewer: nat, more: nat)
    requires
        fewer <= more,
    ensures
        score_for(more) <= score_for(fewer) <= UNIT,
        score_for(0) == UNIT,
{
    let unit = UNIT as nat;
    assert(unit / (1 + more) <= unit / (1 + fewer) <= unit) by (nonlinear_arith)
        requires
            fewer <= more,
    ;
    assert(unit / 1 == unit);
}

/// The score of an identifier that the history references at least once is
/// below `1.0`.
pub proof fn referenced_score_is_below_one(occurrences: nat)
    requires
        occurrences >= 1,
    ensures
        score_for(occurrences) < UNIT,
{
    let unit = UNIT as nat;
    assert(unit / (1 + occurrences) < unit) by (nonlinear_arith)
        requires
            occurrences >= 1,
            unit == 1_000_000_000,
    ;
}

} // verus!
