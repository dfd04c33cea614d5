//! The order in which entries are evicted: ascending by score, entries of
//! equal score in insertion order.

use super::aggregate::{memory_replay, not_among, AdaptiveMemory, MemoryState};
use super::events::MemoryEventView;
use crate::domain::lemma_filter_push;
use super::entry::MemoryEntryView;
use vstd::prelude::*;

verus! {

/// The scores of `entries`, position by position.
pub open spec fn scores(entries: Seq<MemoryEntryView>) -> Seq<u64> {
    entries.map_values(|e: MemoryEntryView| e.score)
}

/// Whether position `j` is evicted before position `i`: its score is lower,
/// or equal and it comes first.
pub open spec fn evicted_before(scores: Seq<u64>, j: int, i: int) -> bool {
    scores[j] < scores[i] || (scores[j] == scores[i] && j < i)
}

/// Where a new last entry of score `score` goes into `order`: behind every
/// position whose score is not higher.
pub open spec fn slot(scores: Seq<u64>, order: Seq<int>, score: u64) -> int
    decreases order.len(),
{
    if order.len() == 0 {
        0
    } else if scores[order.last()] <= score {
        order.len() as int
    } else {
        slot(scores, order.drop_last(), score)
    }
}

/// The positions `0 .. scores.len()` in eviction order: the stable ascending
/// sort by score.
pub open spec fn eviction_order(scores: Seq<u64>) -> Seq<int>
    decreases scores.len(),
{
    if scores.len() == 0 {
        Seq::empty()
    } else {
        let earlier = eviction_order(scores.drop_last());
        earlier.insert(slot(scores, earlier, scores.last()), scores.len() - 1)
    }
}

/// The identifiers of the `excess` entries of `entries` that are evicted
/// first, in eviction order; of all entries if there are fewer.
pub open spec fn lowest(entries: Seq<MemoryEntryView>, excess: int) -> Seq<u128> {
    Seq::new(
        if excess <= entries.len() {
            excess as nat
        } else {
            entries.len()
        },
        |k: int| entries[eviction_order(scores(entries))[k]].id,
    )
}

/// `slot` lies within `order`; everything before it has a score not above
/// `score`, everything from it on a higher one, provided `order` ascends.
pub proof fn slot_splits(scores: Seq<u64>, order: Seq<int>, score: u64)
    requires
        forall|a: int| 0 <= a < order.len() ==> 0 <= #[trigger] order[a] < scores.len(),
        forall|a: int, b: int|
            0 <= a < b < order.len() ==> scores[#[trigger] order[a]] <= scores[#[trigger] order[b]],
    ensures
        0 <= slot(scores, order, score) <= order.len(),
        forall|a: int|
            0 <= a < slot(scores, order, score) ==> scores[#[trigger] order[a]] <= score,
        forall|a: int|
            slot(scores, order, score) <= a < order.len() ==> scores[#[trigger] order[a]] > score,
    decreases order.len(),
{
    if order.len() > 0 && scores[order.last()] > score {
        let shorter = order.drop_last();
        assert forall|a: int, b: int| 0 <= a < b < shorter.len() implies scores[#[trigger] shorter[a]]
            <= scores[#[trigger] shorter[b]] by {
            assert(shorter[a] == order[a] && shorter[b] == order[b]);
        }
        assert forall|a: int| 0 <= a < shorter.len() implies 0 <= #[trigger] shorter[a]
            < scores.len() by {
            assert(shorter[a] == order[a]);
        }
        slot_splits(scores, shorter, score);
        let p = slot(scores, shorter, score);
        assert forall|a: int| 0 <= a < p implies scores[#[trigger] order[a]] <= score by {
            assert(shorter[a] == order[a]);
        }
        assert forall|a: int| p <= a < order.len() implies scores[#[trigger] order[a]] > score by {
            if a < shorter.len() {
                assert(shorter[a] == order[a]);
            }
        }
    } else if order.len() > 0 {
        assert forall|a: int| 0 <= a < order.len() implies scores[#[trigger] order[a]] <= score by {
            if a < order.len() - 1 {
                assert(scores[order[a]] <= scores[order[order.len() - 1]]);
            }
        }
    }
}

/// The eviction order is a permutation of the positions, ascending in
/// eviction order: every position occurs exactly once, and of two places the
/// earlier holds the position that is evicted first.
pub proof fn eviction_order_sorts(scores: Seq<u64>)
    ensures
        eviction_order(scores).len() == scores.len(),
        eviction_order(scores).no_duplicates(),
        forall|a: int|
            0 <= a < scores.len() ==> 0 <= #[trigger] eviction_order(scores)[a] < scores.len(),
        forall|i: int| 0 <= i < scores.len() ==> eviction_order(scores).contains(i),
        forall|a: int, b: int|
            0 <= a < b < scores.len() ==> evicted_before(
                scores,
                #[trigger] eviction_order(scores)[a],
                #[trigger] eviction_order(scores)[b],
            ),
    decreases scores.len(),
{
    if scores.len() > 0 {
        let shorter = scores.drop_last();
        let earlier = eviction_order(shorter);
        let last = scores.len() - 1;
        eviction_order_sorts(shorter);
        assert forall|a: int| 0 <= a < earlier.len() implies 0 <= #[trigger] earlier[a]
            < scores.len() by {}
        assert forall|a: int, b: int| 0 <= a < b < earlier.len() implies scores[#[trigger] earlier[a]]
            <= scores[#[trigger] earlier[b]] by {
            assert(evicted_before(shorter, earlier[a], earlier[b]));
            assert(shorter[earlier[a]] == scores[earlier[a]]);
            assert(shorter[earlier[b]] == scores[earlier[b]]);
        }
        slot_splits(scores, earlier, scores.last());
        let p = slot(scores, earlier, scores.last());
        assert(slot(scores, earlier, scores.last()) == p);
        let order = earlier.insert(p, last);
        assert(eviction_order(scores) == order);
        assert forall|a: int| 0 <= a < order.len() implies 0 <= #[trigger] order[a]
            < scores.len() by {
            if a < p {
                assert(order[a] == earlier[a]);
            } else if a > p {
                assert(order[a] == earlier[a - 1]);
            }
        }
        assert forall|a: int, b: int| 0 <= a < b < order.len() implies evicted_before(
            scores,
            #[trigger] order[a],
            #[trigger] order[b],
        ) by {
            let x = if a < p {
                a
            } else {
                a - 1
            };
            let y = if b < p {
                b
            } else {
                b - 1
            };
            if a != p && b != p {
                assert(order[a] == earlier[x] && order[b] == earlier[y]);
                assert(evicted_before(shorter, earlier[x], earlier[y]));
                assert(shorter[earlier[x]] == scores[earlier[x]]);
                assert(shorter[earlier[y]] == scores[earlier[y]]);
            } else if a == p {
                assert(order[b] == earlier[y]);
                assert(scores[earlier[y]] > scores.last());
            } else {
                assert(order[a] == earlier[x]);
                assert(scores[earlier[x]] <= scores.last());
            }
        }
        assert(order.no_duplicates()) by {
            assert forall|a: int, b: int| 0 <= a < order.len() && 0 <= b < order.len() && a
                != b implies order[a] != order[b] by {
                if a < b {
                    assert(evicted_before(scores, order[a], order[b]));
                } else {
                    assert(evicted_before(scores, order[b], order[a]));
                }
            }
        }
        assert forall|i: int| 0 <= i < scores.len() implies order.contains(i) by {
            if i == last {
                assert(order[p] == i);
            } else {
                assert(earlier.contains(i));
                let a = choose|a: int| 0 <= a < earlier.len() && earlier[a] == i;
                if a < p {
                    assert(order[a] == i);
                } else {
                    assert(order[a + 1] == i);
                }
            }
        }
    }
}

/// Sorts the positions of `keys` ascending by key, positions of equal key in
/// ascending order.
pub fn stable_ascending(keys: &Vec<u64>) -> (order: Vec<usize>)
    ensures
        order@.map_values(|i: usize| i as int) == eviction_order(keys@),
        order@.len() == keys@.len(),
        forall|a: int| 0 <= a < order@.len() ==> #[trigger] order@[a] < keys@.len(),
{
    let ghost all = keys@;
    let mut order: Vec<usize> = Vec::new();
    let mut i: usize = 0;
    assert(all.take(0) == Seq::<u64>::empty());
    assert(order@.map_values(|i: usize| i as int) =~= Seq::<int>::empty());
    while i < keys.len()
        invariant
            i <= keys.len(),
            all == keys@,
            order@.len() == i,
            forall|a: int| 0 <= a < order@.len() ==> 0 <= #[trigger] order@[a] < i,
            order@.map_values(|i: usize| i as int) == eviction_order(all.take(i as int)),
        decreases keys.len() - i,
    {
        let key = keys[i];
        let ghost known = all.take(i + 1);
        let ghost earlier = order@.map_values(|i: usize| i as int);
        proof {
            assert(known.drop_last() == all.take(i as int));
            assert(known.last() == key);
            assert(earlier.take(order@.len() as int) == earlier);
        }
        let mut p: usize = order.len();
        while p > 0 && keys[order[p - 1]] > key
            invariant
                p <= order@.len(),
                order@.len() == i,
                i < keys.len(),
                all == keys@,
                known == all.take(i + 1),
                earlier == order@.map_values(|i: usize| i as int),
                forall|a: int| 0 <= a < order@.len() ==> 0 <= #[trigger] order@[a] < i,
                slot(known, earlier, key) == slot(known, earlier.take(p as int), key),
            decreases p,
        {
            proof {
                let head = earlier.take(p as int);
                assert(head.last() == order@[p - 1] as int);
                assert(known[head.last()] == all[head.last()]);
                assert(head.drop_last() == earlier.take(p - 1));
            }
            p = p - 1;
        }
        proof {
            let head = earlier.take(p as int);
            if p > 0 {
                assert(head.last() == order@[p - 1] as int);
                assert(known[head.last()] == all[head.last()]);
            }
            assert(slot(known, head, key) == p);
        }
        order.insert(p, i);
        proof {
            assert(order@.map_values(|i: usize| i as int) =~= earlier.insert(p as int, i as int));
        }
        i = i + 1;
    }
    assert(all.take(keys.len() as int) == all);
    order
}

impl AdaptiveMemory {
    /// Returns the positions of the entries in eviction order: ascending by
    /// score, entries of equal score in insertion order.
    pub fn eviction_order(&self) -> (order: Vec<usize>)
        ensures
            order@.map_values(|i: usize| i as int) == eviction_order(scores(self@.entries)),
            order@.len() == self@.entries.len(),
            forall|a: int| 0 <= a < order@.len() ==> #[trigger] order@[a] < self@.entries.len(),
    {
        let mut keys: Vec<u64> = Vec::new();
        let mut i: usize = 0;
        while i < self.entries.len()
            invariant
                i <= self.entries.len(),
                keys@ == scores(self@.entries).take(i as int),
            decreases self.entries.len() - i,
        {
            keys.push(self.entries[i].score);
            assert(scores(self@.entries).take(i + 1) == scores(self@.entries).take(i as int).push(
                self.entries[i as int].score,
            ));
            i = i + 1;
        }
        assert(scores(self@.entries).take(self.entries.len() as int) == scores(self@.entries));
        stable_ascending(&keys)
    }

    /// Returns the identifiers of the `excess` entries that are evicted
    /// first, in eviction order; of all entries if there are fewer.
    pub fn lowest(&self, excess: usize) -> (ids: Vec<u128>)
        ensures
            ids@ == lowest(self@.entries, excess as int),
    {
        let order = self.eviction_order();
        let excess = if excess <= self.entries.len() {
            excess
        } else {
            self.entries.len()
        };
        let ghost positions = eviction_order(scores(self@.entries));
        let mut ids: Vec<u128> = Vec::new();
        let mut k: usize = 0;
        while k < excess
            invariant
                k <= excess <= order@.len(),
                order@.len() == self@.entries.len(),
                positions == order@.map_values(|i: usize| i as int),
                positions == eviction_order(scores(self@.entries)),
                forall|a: int| 0 <= a < order@.len() ==> #[trigger] order@[a] < self@.entries.len(),
                ids@ == lowest(self@.entries, k as int),
            decreases excess - k,
        {
            ids.push(self.entries[order[k]].id);
            proof {
                let entries = self@.entries;
                assert(positions.len() == order@.len());
                assert(positions[k as int] == order@[k as int] as int);
                let grown = lowest(entries, k + 1);
                let known = lowest(entries, k as int);
                assert(grown =~= known.push(entries[positions[k as int]].id));
            }
            k = k + 1;
        }
        ids
    }
}

impl MemoryState {
    /// By how many entries the memory exceeds its capacity.
    pub open spec fn excess(self) -> int {
        if self.entries.len() > self.max_size {
            self.entries.len() - self.max_size
        } else {
            0
        }
    }

    /// The identifiers that a prune pass removes: those of the `excess`
    /// entries that are evicted first.
    pub open spec fn evicted(self) -> Seq<u128> {
        lowest(self.entries, self.excess())
    }

    /// The events that a prune pass emits: none within capacity, else one
    /// that names what is evicted.
    pub open spec fn pruning(self) -> Seq<MemoryEventView> {
        if self.excess() > 0 {
            seq![MemoryEventView::Pruned(self.evicted())]
        } else {
            Seq::empty()
        }
    }

    /// The state after a prune pass.
    pub open spec fn pruned(self) -> Self {
        if self.excess() > 0 {
            self.without(self.evicted())
        } else {
            self
        }
    }
}

/// A prune pass restores the capacity and changes nothing else about it.
pub proof fn pruned_is_within_capacity(state: MemoryState)
    ensures
        state.pruned().entries.len() <= state.max_size,
        state.pruned().max_size == state.max_size,
        state.pruned() == state.apply_all(state.pruning()),
{
    if state.excess() > 0 {
        pruning_restores_capacity(state.entries, state.excess());
        let event = MemoryEventView::Pruned(state.evicted());
        assert(state.pruning() == Seq::<MemoryEventView>::empty().push(event));
        memory_apply_all_unfolds(state, Seq::empty(), event);
    }
    assert(state.apply_all(Seq::empty()) == state);
}

/// Replay is deterministic: two memories hydrated from the same events with
/// the same capacity hold the same entries in the same order.
pub proof fn memory_replay_is_deterministic(
    max_size: usize,
    events: Seq<MemoryEventView>,
    first: AdaptiveMemory,
    second: AdaptiveMemory,
)
    requires
        first@ == memory_replay(max_size, events),
        second@ == memory_replay(max_size, events),
    ensures
        first@.entries == second@.entries,
        first@.max_size == second@.max_size,
{
}

/// Applying a history extended by one event is applying that event after
/// the history.
pub proof fn memory_apply_all_unfolds(
    state: MemoryState,
    events: Seq<MemoryEventView>,
    event: MemoryEventView,
)
    ensures
        state.apply_all(events.push(event)) == state.apply_all(events).apply(event),
{
    assert(events.push(event).drop_last() == events);
}

/// Whether `id` is the identifier of some entry.
pub open spec fn has_entry(entries: Seq<MemoryEntryView>, id: u128) -> bool {
    exists|i: int| 0 <= i < entries.len() && #[trigger] entries[i].id == id
}

/// Filtering drops at least the elements at `positions`, if those are
/// distinct positions of elements that fail the predicate.
pub proof fn filter_drops<A>(s: Seq<A>, pred: spec_fn(A) -> bool, positions: Seq<int>)
    requires
        positions.no_duplicates(),
        forall|k: int|
            0 <= k < positions.len() ==> 0 <= #[trigger] positions[k] < s.len() && !pred(
                s[positions[k]],
            ),
    ensures
        s.filter(pred).len() + positions.len() <= s.len(),
    decreases s.len(),
{
    if s.len() == 0 {
        if positions.len() > 0 {
            assert(0 <= positions[0] < s.len());
        }
        assert(s.filter(pred).len() == 0) by {
            reveal(Seq::filter);
        }
    } else {
        let last = s.len() - 1;
        let head = s.drop_last();
        assert(s == head.push(s.last()));
        lemma_filter_push(head, s.last(), pred);
        if positions.contains(last) {
            let j = choose|j: int| 0 <= j < positions.len() && positions[j] == last;
            let rest = positions.remove(j);
            assert forall|k: int| 0 <= k < rest.len() implies 0 <= #[trigger] rest[k] < head.len()
                && !pred(head[rest[k]]) by {
                let from = if k < j {
                    k
                } else {
                    k + 1
                };
                assert(rest[k] == positions[from]);
                assert(positions[from] != positions[j]);
            }
            assert forall|a: int, b: int| 0 <= a < rest.len() && 0 <= b < rest.len() && a
                != b implies rest[a] != rest[b] by {
                let x = if a < j {
                    a
                } else {
                    a + 1
                };
                let y = if b < j {
                    b
                } else {
                    b + 1
                };
                assert(rest[a] == positions[x] && rest[b] == positions[y]);
            }
            filter_drops(head, pred, rest);
        } else {
            assert forall|k: int| 0 <= k < positions.len() implies 0 <= #[trigger] positions[k]
                < head.len() && !pred(head[positions[k]]) by {
                assert(positions.contains(positions[k]));
            }
            filter_drops(head, pred, positions);
        }
    }
}

/// Pruning restores the capacity: dropping the `excess` entries that are
/// evicted first leaves at most `entries.len() - excess` entries.
pub proof fn pruning_restores_capacity(entries: Seq<MemoryEntryView>, excess: int)
    requires
        0 <= excess <= entries.len(),
    ensures
        entries.filter(not_among(lowest(entries, excess))).len() <= entries.len() - excess,
{
    let order = eviction_order(scores(entries));
    eviction_order_sorts(scores(entries));
    let positions = order.take(excess);
    let ids = lowest(entries, excess);
    assert forall|k: int| 0 <= k < positions.len() implies 0 <= #[trigger] positions[k]
        < entries.len() && !not_among(ids)(entries[positions[k]]) by {
        assert(positions[k] == order[k]);
        assert(ids[k] == entries[order[k]].id);
    }
    assert forall|a: int, b: int| 0 <= a < positions.len() && 0 <= b < positions.len() && a
        != b implies positions[a] != positions[b] by {
        assert(positions[a] == order[a] && positions[b] == order[b]);
    }
    filter_drops(entries, not_among(ids), positions);
}

/// Pruning evicts the lowest scores: no entry that is dropped for being one
/// of the `excess` first in eviction order has a higher score than an entry
/// at any other position.
pub proof fn pruning_evicts_lowest(entries: Seq<MemoryEntryView>, excess: int, k: int, i: int)
    requires
        0 <= k < excess <= entries.len(),
        0 <= i < entries.len(),
        !eviction_order(scores(entries)).take(excess).contains(i),
    ensures
        0 <= eviction_order(scores(entries))[k] < entries.len(),
        entries[eviction_order(scores(entries))[k]].score <= entries[i].score,
{
    let order = eviction_order(scores(entries));
    eviction_order_sorts(scores(entries));
    assert(order.contains(i));
    let at = choose|at: int| 0 <= at < order.len() && order[at] == i;
    if at < excess {
        assert(order.take(excess)[at] == i);
    }
    assert(evicted_before(scores(entries), order[k], order[at]));
}

/// When all identifiers are distinct, pruning drops exactly the `excess`
/// entries that are evicted first: what is left is what stands at the other
/// positions, in insertion order.
pub proof fn pruning_drops_exactly(entries: Seq<MemoryEntryView>, excess: int, i: int)
    requires
        0 <= excess <= entries.len(),
        0 <= i < entries.len(),
        forall|a: int, b: int|
            0 <= a < entries.len() && 0 <= b < entries.len() && a != b ==> entries[a].id
                != entries[b].id,
    ensures
        not_among(lowest(entries, excess))(entries[i]) <==> !eviction_order(scores(entries)).take(
            excess,
        ).contains(i),
{
    let order = eviction_order(scores(entries));
    eviction_order_sorts(scores(entries));
    let positions = order.take(excess);
    let ids = lowest(entries, excess);
    if positions.contains(i) {
        let k = choose|k: int| 0 <= k < positions.len() && positions[k] == i;
        assert(ids[k] == entries[i].id);
    }
    if ids.contains(entries[i].id) {
        let k = choose|k: int| 0 <= k < ids.len() && ids[k] == entries[i].id;
        assert(positions[k] == order[k]);
        assert(ids[k] == entries[order[k]].id);
        assert(positions[k] == i);
    }
}

} // verus!
