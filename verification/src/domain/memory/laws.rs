//! What the memory holds after a history of insertions.

use super::aggregate::{not_among, MemoryState};
use super::entry::MemoryEntryView;
use super::eviction::{
    eviction_order, eviction_order_sorts, lowest, pruning_drops_exactly, pruning_evicts_lowest,
    pruning_restores_capacity, scores,
};
use crate::domain::lemma_filter_push;
use vstd::prelude::*;

verus! {

/// Whether no two entries have the same identifier.
pub open spec fn distinct_ids(entries: Seq<MemoryEntryView>) -> bool {
    forall|a: int, b: int|
        0 <= a < entries.len() && 0 <= b < entries.len() && a != b ==> entries[a].id
            != entries[b].id
}

/// The memory after inserting `entries` one by one into an empty memory of
/// capacity `max_size`: each is added, then the memory is pruned.
pub open spec fn accumulated(max_size: usize, entries: Seq<MemoryEntryView>) -> MemoryState
    decreases entries.len(),
{
    if entries.len() == 0 {
        MemoryState::empty(max_size)
    } else {
        accumulated(max_size, entries.drop_last()).add(entries.last()).pruned()
    }
}

/// Whether `kept` holds the highest scoring of `all`: it holds as many
/// entries of `all` as the capacity admits, all of them while there is room,
/// and no entry that it does not hold has a higher score than one it holds.
pub open spec fn holds_the_best(all: Seq<MemoryEntryView>, kept: MemoryState) -> bool {
    &&& kept.entries.len() == if all.len() <= kept.max_size {
        all.len()
    } else {
        kept.max_size as nat
    }
    &&& kept.entries.len() < kept.max_size ==> kept.entries == all
    &&& distinct_ids(kept.entries)
    &&& forall|e: MemoryEntryView| kept.entries.contains(e) ==> all.contains(e)
    &&& forall|a: MemoryEntryView, s: MemoryEntryView|
        all.contains(a) && !kept.entries.contains(a) && kept.entries.contains(s) ==> a.score
            <= s.score
}

/// Filtering keeps at least the elements that do not stand at `positions`,
/// if every element that fails the predicate stands at one of them.
pub proof fn filter_keeps<A>(s: Seq<A>, pred: spec_fn(A) -> bool, positions: Seq<int>)
    requires
        positions.no_duplicates(),
        forall|i: int| 0 <= i < s.len() && !pred(s[i]) ==> positions.contains(i),
    ensures
        s.filter(pred).len() + positions.len() >= s.len(),
    decreases s.len(),
{
    if s.len() > 0 {
        let last = s.len() - 1;
        let head = s.drop_last();
        assert(s == head.push(s.last()));
        lemma_filter_push(head, s.last(), pred);
        if positions.contains(last) {
            let j = choose|j: int| 0 <= j < positions.len() && positions[j] == last;
            let rest = positions.remove(j);
            assert forall|a: int, b: int| 0 <= a < rest.len() && 0 <= b < rest.len() && a
                != b implies rest[a] != rest[b] by {
                let x = if a < j {
                    a
                } else {
                    a + 1
                };
                let y = if b < j {
                    b
                } else {
                    b + 1
                };
                assert(rest[a] == positions[x] && rest[b] == positions[y]);
            }
            assert forall|i: int| 0 <= i < head.len() && !pred(head[i]) implies rest.contains(
                i,
            ) by {
                assert(positions.contains(i));
                let k = choose|k: int| 0 <= k < positions.len() && positions[k] == i;
                if k < j {
                    assert(rest[k] == i);
                } else {
                    assert(rest[k - 1] == i);
                }
            }
            filter_keeps(head, pred, rest);
        } else {
            filter_keeps(head, pred, positions);
        }
    }
}

/// Filtering a sequence of entries with distinct identifiers leaves a
/// sequence of entries with distinct identifiers.
pub proof fn filter_keeps_distinct(entries: Seq<MemoryEntryView>, pred: spec_fn(MemoryEntryView) -> bool)
    requires
        distinct_ids(entries),
    ensures
        distinct_ids(entries.filter(pred)),
    decreases entries.len(),
{
    if entries.len() == 0 {
        assert(entries.filter(pred).len() == 0) by {
            reveal(Seq::filter);
        }
    } else {
        let head = entries.drop_last();
        let last = entries.last();
        assert(entries == head.push(last));
        lemma_filter_push(head, last, pred);
        assert(distinct_ids(head)) by {
            assert forall|a: int, b: int| 0 <= a < head.len() && 0 <= b < head.len() && a
                != b implies head[a].id != head[b].id by {
                assert(head[a] == entries[a] && head[b] == entries[b]);
            }
        }
        filter_keeps_distinct(head, pred);
        if pred(last) {
            let kept = head.filter(pred);
            let grown = kept.push(last);
            assert forall|a: int, b: int| 0 <= a < grown.len() && 0 <= b < grown.len() && a
                != b implies grown[a].id != grown[b].id by {
                if a < kept.len() {
                    assert(kept.contains(kept[a]));
                    head.lemma_filter_contains_rev(pred, kept[a]);
                    let x = choose|x: int| 0 <= x < head.len() && head[x] == kept[a];
                    assert(entries[x] == kept[a]);
                }
                if b < kept.len() {
                    assert(kept.contains(kept[b]));
                    head.lemma_filter_contains_rev(pred, kept[b]);
                    let y = choose|y: int| 0 <= y < head.len() && head[y] == kept[b];
                    assert(entries[y] == kept[b]);
                }
            }
        }
    }
}

/// Inserting keeps the best: if the memory holds the highest scoring of all
/// entries added so far, then after another entry with a new identifier is
/// added and the memory is pruned, it holds the highest scoring of all
/// entries including the new one.
pub proof fn insertion_keeps_the_best(
    all: Seq<MemoryEntryView>,
    kept: MemoryState,
    entry: MemoryEntryView,
)
    requires
        holds_the_best(all, kept),
        forall|i: int| 0 <= i < all.len() ==> all[i].id != entry.id,
    ensures
        holds_the_best(all.push(entry), kept.add(entry).pruned()),
{
    let widened = all.push(entry);
    let grown = kept.add(entry);
    let after = grown.pruned();
    let k = kept.entries.len() as int;
    assert(grown.entries[k] == entry);
    assert forall|i: int| 0 <= i < k implies grown.entries[i] == kept.entries[i] && all.contains(
        #[trigger] grown.entries[i],
    ) by {
        assert(kept.entries.contains(kept.entries[i]));
    }
    assert(distinct_ids(grown.entries)) by {
        assert forall|a: int, b: int|
            0 <= a < grown.entries.len() && 0 <= b < grown.entries.len() && a
                != b implies grown.entries[a].id != grown.entries[b].id by {
            if a < k {
                assert(all.contains(grown.entries[a]));
                let x = choose|x: int| 0 <= x < all.len() && all[x] == grown.entries[a];
                assert(all[x].id != entry.id);
            }
            if b < k {
                assert(all.contains(grown.entries[b]));
                let y = choose|y: int| 0 <= y < all.len() && all[y] == grown.entries[b];
                assert(all[y].id != entry.id);
            }
        }
    }
    assert(widened[all.len() as int] == entry);
    assert forall|e: MemoryEntryView| all.contains(e) implies widened.contains(e) by {
        let x = choose|x: int| 0 <= x < all.len() && all[x] == e;
        assert(widened[x] == e);
    }
    if grown.excess() == 0 {
        assert(kept.entries == all);
        assert(after.entries == widened);
    } else {
        assert(grown.excess() == 1);
        let order = eviction_order(scores(grown.entries));
        eviction_order_sorts(scores(grown.entries));
        let ids = lowest(grown.entries, 1);
        let pred = not_among(ids);
        let out = order[0];
        assert(order.take(1)[0] == out);
        assert(ids[0] == grown.entries[out].id);
        assert(after.entries == grown.entries.filter(pred));
        assert forall|i: int| 0 <= i < grown.entries.len() implies (pred(grown.entries[i]) <==> i
            != out) by {
            pruning_drops_exactly(grown.entries, 1, i);
            if i == out {
                assert(order.take(1).contains(i));
            } else if order.take(1).contains(i) {
                let x = choose|x: int| 0 <= x < order.take(1).len() && order.take(1)[x] == i;
                assert(x == 0);
            }
        }
        pruning_restores_capacity(grown.entries, 1);
        assert(seq![out].no_duplicates());
        assert forall|i: int|
            0 <= i < grown.entries.len() && !pred(grown.entries[i]) implies seq![out].contains(
            i,
        ) by {
            assert(seq![out][0] == i);
        }
        filter_keeps(grown.entries, pred, seq![out]);
        filter_keeps_distinct(grown.entries, pred);
        assert forall|e: MemoryEntryView| after.entries.contains(e) implies widened.contains(
            e,
        ) by {
            grown.entries.lemma_filter_contains_rev(pred, e);
            let x = choose|x: int| 0 <= x < grown.entries.len() && grown.entries[x] == e;
            if x < k {
                assert(all.contains(grown.entries[x]));
            }
        }
        assert forall|a: MemoryEntryView, s: MemoryEntryView|
            widened.contains(a) && !after.entries.contains(a) && after.entries.contains(
                s,
            ) implies a.score <= s.score by {
            // Where the kept entry stands, and that it is not the evicted one.
            grown.entries.lemma_filter_contains_rev(pred, s);
            let j = choose|j: int| 0 <= j < grown.entries.len() && grown.entries[j] == s;
            let at = choose|at: int| 0 <= at < after.entries.len() && after.entries[at] == s;
            grown.entries.lemma_filter_pred(pred, at);
            assert(j != out);
            assert(!order.take(1).contains(j)) by {
                if order.take(1).contains(j) {
                    let x = choose|x: int| 0 <= x < order.take(1).len() && order.take(1)[x] == j;
                    assert(x == 0);
                }
            }
            pruning_evicts_lowest(grown.entries, 1, 0, j);
            let evicted = grown.entries[out];
            assert(evicted.score <= s.score);
            // Where the entry that is not kept comes from.
            let x = choose|x: int| 0 <= x < widened.len() && widened[x] == a;
            if grown.entries.contains(a) {
                let i = choose|i: int| 0 <= i < grown.entries.len() && grown.entries[i] == a;
                if i != out {
                    grown.entries.lemma_filter_contains(pred, i);
                }
                assert(a == evicted);
            } else {
                // It was evicted before: nothing kept then scored lower.
                assert(x < all.len()) by {
                    if x == all.len() {
                        assert(grown.entries[k] == a);
                    }
                }
                assert(all.contains(all[x]));
                assert(!kept.entries.contains(a)) by {
                    if kept.entries.contains(a) {
                        let i = choose|i: int| 0 <= i < k && kept.entries[i] == a;
                        assert(grown.entries[i] == a);
                    }
                }
                if j < k {
                    assert(kept.entries.contains(kept.entries[j]));
                } else {
                    assert(out < k);
                    assert(kept.entries.contains(kept.entries[out]));
                    assert(a.score <= evicted.score);
                }
            }
        }
    }
}

/// After any history of successful insertions of entries with distinct
/// identifiers into an empty memory, the memory holds the highest scoring of
/// all entries ever added: as many as the capacity admits, none of them
/// scoring lower than an entry that was evicted.
pub proof fn memory_holds_the_best(max_size: usize, entries: Seq<MemoryEntryView>)
    requires
        distinct_ids(entries),
    ensures
        holds_the_best(entries, accumulated(max_size, entries)),
        accumulated(max_size, entries).max_size == max_size,
    decreases entries.len(),
{
    if entries.len() == 0 {
        assert(accumulated(max_size, entries).entries == entries);
    } else {
        let head = entries.drop_last();
        let last = entries.last();
        assert(entries == head.push(last));
        assert(distinct_ids(head)) by {
            assert forall|a: int, b: int| 0 <= a < head.len() && 0 <= b < head.len() && a
                != b implies head[a].id != head[b].id by {
                assert(head[a] == entries[a] && head[b] == entries[b]);
            }
        }
        memory_holds_the_best(max_size, head);
        assert forall|i: int| 0 <= i < head.len() implies head[i].id != last.id by {
            assert(head[i] == entries[i]);
            assert(last == entries[entries.len() - 1]);
        }
        insertion_keeps_the_best(head, accumulated(max_size, head), last);
    }
}

} // verus!
