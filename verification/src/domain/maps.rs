//! Helpers over hash maps keyed by identifiers, and lemmas about sequences.

use std::collections::HashMap;
use vstd::prelude::*;
use vstd::std_specs::hash::spec_keys_iter;
use vstd::std_specs::iter::IteratorSpec;

verus! {

/// Returns the keys of `map`, each once, in the order the map yields them.
pub(crate) fn key_list<V>(map: &HashMap<u128, V>) -> (keys: Vec<u128>)
    ensures
        keys@.to_set() == map@.dom(),
        keys@.no_duplicates(),
        keys@.len() == map@.dom().len(),
{
    broadcast use vstd::std_specs::hash::group_hash_axioms;

    let ghost all = spec_keys_iter(map).remaining();
    let mut keys: Vec<u128> = Vec::new();
    for k in it: map.keys()
        invariant
            it.seq() == all,
            keys@ == all.unref().take(it.index()),
    {
        keys.push(*k);
        assert(all.unref().take(it.index() + 1) == all.unref().take(it.index()).push(
            all.unref()[it.index()],
        ));
    }
    assert(all.unref().take(all.len() as int) == all.unref());
    keys
}

/// Appending `x` to `s` adds `x` to the elements of `s` and nothing else, and
/// keeps `s` free of duplicates if `x` is new.
pub(crate) proof fn lemma_push_contains<A>(s: Seq<A>, x: A)
    ensures
        forall|y: A| s.push(x).contains(y) <==> (s.contains(y) || y == x),
        s.no_duplicates() && !s.contains(x) ==> s.push(x).no_duplicates(),
{
    let t = s.push(x);
    assert forall|y: A| t.contains(y) <==> (s.contains(y) || y == x) by {
        if t.contains(y) {
            let j = choose|j: int| 0 <= j < t.len() && t[j] == y;
            if j < s.len() {
                assert(s[j] == y);
            }
        }
        if s.contains(y) {
            let j = choose|j: int| 0 <= j < s.len() && s[j] == y;
            assert(t[j] == y);
        }
        assert(t[s.len() as int] == x);
    }
    if s.no_duplicates() && !s.contains(x) {
        assert forall|i: int, j: int| 0 <= i < t.len() && 0 <= j < t.len() && i != j implies t[i]
            != t[j] by {
            if i < s.len() {
                assert(s.contains(s[i]));
            }
            if j < s.len() {
                assert(s.contains(s[j]));
            }
        }
    }
}

/// Filtering a sequence extended by `x` filters the sequence and keeps `x`
/// exactly if the predicate holds of it.
pub(crate) proof fn lemma_filter_push<A>(s: Seq<A>, x: A, pred: spec_fn(A) -> bool)
    ensures
        s.push(x).filter(pred) == if pred(x) {
            s.filter(pred).push(x)
        } else {
            s.filter(pred)
        },
{
    reveal(Seq::filter);
    assert(s.push(x).drop_last() == s);
}

/// Predicates that agree on the elements of a sequence filter it alike.
pub(crate) proof fn lemma_filter_agrees<A>(s: Seq<A>, p: spec_fn(A) -> bool, q: spec_fn(A) -> bool)
    requires
        forall|i: int| 0 <= i < s.len() ==> p(#[trigger] s[i]) == q(s[i]),
    ensures
        s.filter(p) == s.filter(q),
    decreases s.len(),
{
    reveal(Seq::filter);
    if s.len() > 0 {
        let head = s.drop_last();
        assert forall|i: int| 0 <= i < head.len() implies p(#[trigger] head[i]) == q(head[i]) by {
            assert(head[i] == s[i]);
        }
        lemma_filter_agrees(head, p, q);
        assert(p(s[s.len() - 1]) == q(s[s.len() - 1]));
    }
}

/// A predicate that gives up exactly one element of a sequence without
/// duplicates keeps one element less.
pub(crate) proof fn lemma_filter_loses_one<A>(
    s: Seq<A>,
    p: spec_fn(A) -> bool,
    q: spec_fn(A) -> bool,
    x: A,
)
    requires
        s.no_duplicates(),
        s.contains(x),
        p(x),
        !q(x),
        forall|i: int| 0 <= i < s.len() && s[i] != x ==> p(#[trigger] s[i]) == q(s[i]),
    ensures
        s.filter(q).len() + 1 == s.filter(p).len(),
    decreases s.len(),
{
    reveal(Seq::filter);
    let at = choose|at: int| 0 <= at < s.len() && s[at] == x;
    let head = s.drop_last();
    let last = s.len() - 1;
    assert(s == head.push(s[last]));
    assert forall|i: int, j: int| 0 <= i < head.len() && 0 <= j < head.len() && i
        != j implies head[i] != head[j] by {
        assert(head[i] == s[i] && head[j] == s[j]);
    }
    if at == last {
        assert forall|i: int| 0 <= i < head.len() implies p(#[trigger] head[i]) == q(head[i]) by {
            assert(head[i] == s[i]);
            assert(s[i] != s[last]);
        }
        lemma_filter_agrees(head, p, q);
    } else {
        assert(head[at] == x);
        assert forall|i: int| 0 <= i < head.len() && head[i] != x implies p(#[trigger] head[i])
            == q(head[i]) by {
            assert(head[i] == s[i]);
        }
        lemma_filter_loses_one(head, p, q, x);
        assert(s[last] != x);
        assert(p(s[last]) == q(s[last]));
    }
}

/// A filtered sequence is empty exactly if no element passes.
pub(crate) proof fn lemma_filter_witness<A>(s: Seq<A>, p: spec_fn(A) -> bool)
    ensures
        s.filter(p).len() > 0 <==> exists|i: int| 0 <= i < s.len() && p(#[trigger] s[i]),
    decreases s.len(),
{
    reveal(Seq::filter);
    if s.len() > 0 {
        let head = s.drop_last();
        lemma_filter_witness(head, p);
        if exists|i: int| 0 <= i < head.len() && p(#[trigger] head[i]) {
            let i = choose|i: int| 0 <= i < head.len() && p(#[trigger] head[i]);
            assert(s[i] == head[i]);
        }
        if exists|i: int| 0 <= i < s.len() && p(#[trigger] s[i]) {
            let i = choose|i: int| 0 <= i < s.len() && p(#[trigger] s[i]);
            if i < head.len() {
                assert(head[i] == s[i]);
            }
        }
    }
}

/// Filtering keeps a sequence free of duplicates, keeps only elements of
/// the sequence, and keeps exactly those that pass.
pub(crate) proof fn lemma_filter_members<A>(s: Seq<A>, p: spec_fn(A) -> bool)
    ensures
        s.no_duplicates() ==> s.filter(p).no_duplicates(),
        forall|x: A| s.filter(p).contains(x) <==> (s.contains(x) && p(x)),
    decreases s.len(),
{
    reveal(Seq::filter);
    if s.len() == 0 {
        assert(s.filter(p).len() == 0);
    } else {
        let head = s.drop_last();
        let last = s[s.len() - 1];
        let kept = head.filter(p);
        lemma_filter_members(head, p);
        assert(s == head.push(last));
        lemma_push_contains(head, last);
        lemma_push_contains(kept, last);
        assert(s.filter(p) == if p(last) {
            kept.push(last)
        } else {
            kept
        });
        assert forall|x: A| s.filter(p).contains(x) <==> (s.contains(x) && p(x)) by {
            assert(kept.contains(x) <==> (head.contains(x) && p(x)));
            assert(s.contains(x) <==> (head.contains(x) || x == last));
        }
        if s.no_duplicates() {
            assert forall|i: int, j: int| 0 <= i < head.len() && 0 <= j < head.len() && i
                != j implies head[i] != head[j] by {
                assert(head[i] == s[i]);
                assert(head[j] == s[j]);
            }
            if head.contains(last) {
                let i = choose|i: int| 0 <= i < head.len() && head[i] == last;
                assert(s[i] == s[s.len() - 1]);
            }
            assert(!kept.contains(last));
        }
    }
}

} // verus!
