//! The structure of a network as the numeric engine needs it: who feeds
//! whom, where signals enter and leave, and an order in which every neuron
//! comes after all neurons that feed it.
//!
//! Neurons are numbered `0 .. nodes`; a synapse is a pair of such numbers,
//! source first. A pair that names a number outside this range is no link
//! and is passed over.

use crate::domain::{
    lemma_filter_agrees, lemma_filter_loses_one, lemma_filter_members, lemma_filter_push,
    lemma_filter_witness, lemma_push_contains,
};
use vstd::prelude::*;

verus! {

/// Errors that can occur when a network is laid out.
#[derive(Debug, Clone, Copy, PartialEq, Eq, Structural)]
pub enum NetworkError {
    /// A provided neuron identifier does not exist in the network.
    UnknownNeuron,
    /// The network contains a cycle and cannot be processed.
    CycleDetected,
}

/// The numbers `0 .. n`, ascending.
pub open spec fn indices(n: nat) -> Seq<int> {
    Seq::new(n, |i: int| i)
}

/// Whether the `i`-th pair is a link: both its ends are neurons.
pub open spec fn is_link(nodes: nat, edges: Seq<(usize, usize)>, i: int) -> bool {
    0 <= i < edges.len() && edges[i].0 < nodes && edges[i].1 < nodes
}

/// The predicate that holds of the links that end at `v`.
pub open spec fn leads_into(nodes: nat, edges: Seq<(usize, usize)>, v: int) -> spec_fn(int) -> bool {
    |i: int| is_link(nodes, edges, i) && edges[i].1 == v
}

/// The predicate that holds of the links that start at `u`.
pub open spec fn leads_from(nodes: nat, edges: Seq<(usize, usize)>, u: int) -> spec_fn(int) -> bool {
    |i: int| is_link(nodes, edges, i) && edges[i].0 == u
}

/// The links that end at `v`, ascending.
pub open spec fn links_into(nodes: nat, edges: Seq<(usize, usize)>, v: int) -> Seq<int> {
    indices(edges.len()).filter(leads_into(nodes, edges, v))
}

/// The links that start at `u`, ascending.
pub open spec fn links_from(nodes: nat, edges: Seq<(usize, usize)>, u: int) -> Seq<int> {
    indices(edges.len()).filter(leads_from(nodes, edges, u))
}

/// Each of `links` with the neuron it starts at.
pub open spec fn with_sources(edges: Seq<(usize, usize)>, links: Seq<int>) -> Seq<(usize, usize)> {
    links.map_values(|i: int| (i as usize, edges[i].0))
}

/// Each of `links` with the neuron it ends at.
pub open spec fn with_targets(edges: Seq<(usize, usize)>, links: Seq<int>) -> Seq<(usize, usize)> {
    links.map_values(|i: int| (i as usize, edges[i].1))
}

/// The predicate that holds of the neurons at which no link ends.
pub open spec fn is_input(nodes: nat, edges: Seq<(usize, usize)>) -> spec_fn(int) -> bool {
    |v: int| links_into(nodes, edges, v).len() == 0
}

/// The predicate that holds of the neurons at which no link starts.
pub open spec fn is_output(nodes: nat, edges: Seq<(usize, usize)>) -> spec_fn(int) -> bool {
    |u: int| links_from(nodes, edges, u).len() == 0
}

/// The numbers of `list` as integers.
pub open spec fn as_ints(list: Seq<usize>) -> Seq<int> {
    list.map_values(|x: usize| x as int)
}

/// Whether `lists` holds, for every neuron, the links that end at it
/// (`inward`) or start at it (otherwise), each with its other end.
pub open spec fn lists_links(
    nodes: nat,
    edges: Seq<(usize, usize)>,
    upto: nat,
    inward: bool,
    lists: Seq<Vec<(usize, usize)>>,
) -> bool {
    &&& lists.len() == nodes
    &&& forall|v: int|
        0 <= v < nodes ==> (#[trigger] lists[v])@ == if inward {
            with_sources(edges, indices(upto).filter(leads_into(nodes, edges, v)))
        } else {
            with_targets(edges, indices(upto).filter(leads_from(nodes, edges, v)))
        }
}

/// A list of `nodes` empty lists.
fn empty_lists(nodes: usize, Ghost(edges): Ghost<Seq<(usize, usize)>>, inward: bool) -> (lists: Vec<
    Vec<(usize, usize)>,
>)
    ensures
        lists_links(nodes as nat, edges, 0, inward, lists@),
{
    let mut lists: Vec<Vec<(usize, usize)>> = Vec::new();
    let mut v: usize = 0;
    while v < nodes
        invariant
            v <= nodes,
            lists@.len() == v,
            forall|w: int| 0 <= w < v ==> (#[trigger] lists@[w])@.len() == 0,
        decreases nodes - v,
    {
        lists.push(Vec::new());
        v = v + 1;
    }
    proof {
        assert(indices(0) =~= Seq::<int>::empty());
        assert forall|w: int| 0 <= w < nodes implies (#[trigger] lists@[w])@ == if inward {
            with_sources(edges, indices(0).filter(leads_into(nodes as nat, edges, w)))
        } else {
            with_targets(edges, indices(0).filter(leads_from(nodes as nat, edges, w)))
        } by {
            reveal(Seq::filter);
            assert(indices(0).filter(leads_into(nodes as nat, edges, w)).len() == 0);
            assert(indices(0).filter(leads_from(nodes as nat, edges, w)).len() == 0);
            assert(lists@[w]@ =~= Seq::<(usize, usize)>::empty());
        }
    }
    lists
}

/// For every neuron, the links that end at it and the links that start at
/// it, each with its other end.
pub fn adjacency(nodes: usize, edges: &Vec<(usize, usize)>) -> (lists: (
    Vec<Vec<(usize, usize)>>,
    Vec<Vec<(usize, usize)>>,
))
    ensures
        lists_links(nodes as nat, edges@, edges@.len(), true, lists.0@),
        lists_links(nodes as nat, edges@, edges@.len(), false, lists.1@),
{
    let mut incoming = empty_lists(nodes, Ghost(edges@), true);
    let mut outgoing = empty_lists(nodes, Ghost(edges@), false);
    let mut i: usize = 0;
    while i < edges.len()
        invariant
            i <= edges.len(),
            lists_links(nodes as nat, edges@, i as nat, true, incoming@),
            lists_links(nodes as nat, edges@, i as nat, false, outgoing@),
        decreases edges.len() - i,
    {
        let (from, to) = edges[i];
        let ghost before_in = incoming@;
        let ghost before_out = outgoing@;
        if from < nodes && to < nodes {
            incoming[to].push((i, from));
            outgoing[from].push((i, to));
        }
        proof {
            assert(indices((i + 1) as nat) =~= indices(i as nat).push(i as int));
            assert forall|v: int| 0 <= v < nodes implies (#[trigger] incoming@[v])@ == with_sources(
                edges@,
                indices((i + 1) as nat).filter(leads_into(nodes as nat, edges@, v)),
            ) by {
                let pred = leads_into(nodes as nat, edges@, v);
                lemma_filter_push(indices(i as nat), i as int, pred);
                let known = indices(i as nat).filter(pred);
                assert(before_in[v]@ == with_sources(edges@, known));
                if pred(i as int) {
                    assert(incoming@[v]@ =~= with_sources(edges@, known.push(i as int)));
                }
            }
            assert forall|u: int| 0 <= u < nodes implies (#[trigger] outgoing@[u])@ == with_targets(
                edges@,
                indices((i + 1) as nat).filter(leads_from(nodes as nat, edges@, u)),
            ) by {
                let pred = leads_from(nodes as nat, edges@, u);
                lemma_filter_push(indices(i as nat), i as int, pred);
                let known = indices(i as nat).filter(pred);
                assert(before_out[u]@ == with_targets(edges@, known));
                if pred(i as int) {
                    assert(outgoing@[u]@ =~= with_targets(edges@, known.push(i as int)));
                }
            }
        }
        i = i + 1;
    }
    (incoming, outgoing)
}

/// The neurons whose list is empty, ascending.
fn with_empty_list(lists: &Vec<Vec<(usize, usize)>>) -> (out: Vec<usize>)
    ensures
        as_ints(out@) == indices(lists@.len()).filter(|v: int| 0 <= v < lists@.len() && lists@[v]@.len() == 0),
        forall|k: int| 0 <= k < out@.len() ==> out@[k] < lists@.len(),
{
    let ghost pred = |v: int| 0 <= v < lists@.len() && lists@[v]@.len() == 0;
    let mut out: Vec<usize> = Vec::new();
    let mut v: usize = 0;
    proof {
        assert(indices(0) =~= Seq::<int>::empty());
        assert(indices(0).filter(pred).len() == 0) by {
            reveal(Seq::filter);
        }
        assert(as_ints(out@) =~= indices(0).filter(pred));
    }
    while v < lists.len()
        invariant
            v <= lists.len(),
            pred == (|v: int| 0 <= v < lists@.len() && lists@[v]@.len() == 0),
            as_ints(out@) == indices(v as nat).filter(pred),
            forall|k: int| 0 <= k < out@.len() ==> out@[k] < lists@.len(),
        decreases lists.len() - v,
    {
        proof {
            assert(indices((v + 1) as nat) =~= indices(v as nat).push(v as int));
            lemma_filter_push(indices(v as nat), v as int, pred);
        }
        if lists[v].len() == 0 {
            let ghost prev = out@;
            out.push(v);
            assert(as_ints(out@) =~= as_ints(prev).push(v as int));
        }
        v = v + 1;
    }
    out
}

/// Whether `x` stands in `order` before the place `b`.
pub open spec fn placed_before(order: Seq<usize>, x: usize, b: int) -> bool {
    exists|a: int| 0 <= a < b && a < order.len() && #[trigger] order[a] == x
}

/// Whether every neuron of `order` comes after all neurons that feed it.
pub open spec fn sources_first(nodes: nat, edges: Seq<(usize, usize)>, order: Seq<usize>) -> bool {
    forall|i: int, b: int|
        #![trigger is_link(nodes, edges, i), order[b]]
        is_link(nodes, edges, i) && 0 <= b < order.len() && order[b] == edges[i].1
            ==> placed_before(order, edges[i].0, b)
}

/// Whether `order` is a topological order of the network: it holds every
/// neuron once, each after all neurons that feed it.
pub open spec fn is_topological(nodes: nat, edges: Seq<(usize, usize)>, order: Seq<usize>) -> bool {
    &&& order.no_duplicates()
    &&& forall|k: int| 0 <= k < order.len() ==> #[trigger] order[k] < nodes
    &&& forall|v: usize| v < nodes ==> #[trigger] order.contains(v)
    &&& forall|i: int, a: int, b: int|
        #![trigger is_link(nodes, edges, i), order[a], order[b]]
        is_link(nodes, edges, i) && 0 <= a < order.len() && 0 <= b < order.len() && order[a]
            == edges[i].0 && order[b] == edges[i].1 ==> a < b
}

/// Whether the network has a topological order, that is, no cycle.
pub open spec fn acyclic(nodes: nat, edges: Seq<(usize, usize)>) -> bool {
    exists|order: Seq<usize>| is_topological(nodes, edges, order)
}

/// The predicate that holds of the links into `v` whose source is not in `done`.
pub open spec fn awaited(nodes: nat, edges: Seq<(usize, usize)>, done: Seq<usize>, v: int) -> spec_fn(
    int,
) -> bool {
    |i: int| is_link(nodes, edges, i) && edges[i].1 == v && !done.contains(edges[i].0)
}

/// The predicate that holds of the links into `v` whose source is neither
/// in `done` nor `u` with the link among `released`.
pub open spec fn awaited_except(
    nodes: nat,
    edges: Seq<(usize, usize)>,
    done: Seq<usize>,
    u: usize,
    released: Seq<int>,
    v: int,
) -> spec_fn(int) -> bool {
    |i: int|
        is_link(nodes, edges, i) && edges[i].1 == v && !done.contains(edges[i].0) && !(edges[i].0
            == u && released.contains(i))
}

/// What holds between two neurons being released: `order` lists the
/// neurons that wait for no one, each after all that feed it; `waits`
/// counts, for every neuron, the links into it from neurons that are not
/// among the first `head` of `order`.
pub open spec fn settled(
    nodes: nat,
    edges: Seq<(usize, usize)>,
    waits: Seq<usize>,
    order: Seq<usize>,
    head: int,
) -> bool {
    &&& waits.len() == nodes
    &&& 0 <= head <= order.len()
    &&& order.no_duplicates()
    &&& forall|k: int| 0 <= k < order.len() ==> #[trigger] order[k] < nodes
    &&& forall|v: int|
        0 <= v < nodes ==> #[trigger] waits[v] == indices(edges.len()).filter(
            awaited(nodes, edges, order.take(head), v),
        ).len()
    &&& forall|v: int| 0 <= v < nodes ==> (order.contains(v as usize) <==> #[trigger] waits[v] == 0)
    &&& sources_first(nodes, edges, order)
}

/// What holds while the neuron `u`, the one at `head`, is being released
/// and the links `released` are done with.
pub open spec fn settling(
    nodes: nat,
    edges: Seq<(usize, usize)>,
    waits: Seq<usize>,
    order: Seq<usize>,
    head: int,
    u: usize,
    released: Seq<int>,
) -> bool {
    &&& waits.len() == nodes
    &&& 0 <= head < order.len()
    &&& order[head] == u
    &&& order.no_duplicates()
    &&& forall|k: int| 0 <= k < order.len() ==> #[trigger] order[k] < nodes
    &&& forall|v: int|
        0 <= v < nodes ==> #[trigger] waits[v] == indices(edges.len()).filter(
            awaited_except(nodes, edges, order.take(head), u, released, v),
        ).len()
    &&& forall|v: int| 0 <= v < nodes ==> (order.contains(v as usize) <==> #[trigger] waits[v] == 0)
    &&& sources_first(nodes, edges, order)
}

/// A sequence of distinct numbers below `n` has at most `n` elements; it
/// has `n` elements exactly if it holds every number below `n`. (`n` is the
/// number of neurons, itself a machine number.)
pub proof fn distinct_numbers_are_few(list: Seq<usize>, n: nat)
    requires
        n <= usize::MAX,
        list.no_duplicates(),
        forall|k: int| 0 <= k < list.len() ==> #[trigger] list[k] < n,
    ensures
        list.len() <= n,
        list.len() == n <==> (forall|v: usize| v < n ==> #[trigger] list.contains(v)),
{
    let ints = as_ints(list);
    assert(ints.no_duplicates());
    ints.unique_seq_to_set();
    let all = vstd::set_lib::set_int_range(0, n as int);
    vstd::set_lib::lemma_int_range(0, n as int);
    assert(ints.to_set().subset_of(all)) by {
        assert forall|x: int| ints.to_set().contains(x) implies all.contains(x) by {
            let k = choose|k: int| 0 <= k < ints.len() && ints[k] == x;
            assert(list[k] < n);
        }
    }
    vstd::set_lib::lemma_len_subset(ints.to_set(), all);
    if list.len() == n {
        vstd::set_lib::lemma_subset_equality(ints.to_set(), all);
        assert forall|v: usize| v < n implies #[trigger] list.contains(v) by {
            assert(all.contains(v as int));
            assert(ints.to_set().contains(v as int));
            let k = choose|k: int| 0 <= k < ints.len() && ints[k] == v as int;
            assert(list[k] == v);
        }
    }
    if forall|v: usize| v < n ==> #[trigger] list.contains(v) {
        assert forall|x: int| all.contains(x) implies ints.to_set().contains(x) by {
            let v = x as usize;
            assert(list.contains(v));
            let k = choose|k: int| 0 <= k < list.len() && list[k] == v;
            assert(ints[k] == x);
        }
        assert(ints.to_set() =~= all);
    }
}

/// Releases the neuron `u`, the one at `head`: every neuron that it feeds
/// waits for one link less, and joins `order` when it waits for none.
fn release(
    nodes: usize,
    edges: &Vec<(usize, usize)>,
    from_u: &Vec<(usize, usize)>,
    u: usize,
    head: usize,
    waits: &mut Vec<usize>,
    order: &mut Vec<usize>,
)
    requires
        from_u@ == with_targets(edges@, links_from(nodes as nat, edges@, u as int)),
        settled(nodes as nat, edges@, old(waits)@, old(order)@, head as int),
        head < old(order)@.len(),
        old(order)@[head as int] == u,
    ensures
        settled(nodes as nat, edges@, final(waits)@, final(order)@, head + 1),
{
    let ghost n = nodes as nat;
    let ghost all = indices(edges@.len());
    let ghost links = links_from(n, edges@, u as int);
    let ghost done = order@.take(head as int);
    proof {
        lemma_filter_members(all, leads_from(n, edges@, u as int));
        assert(links.take(0) =~= Seq::<int>::empty());
        assert forall|v: int| 0 <= v < n implies #[trigger] waits@[v] == all.filter(
            awaited_except(n, edges@, done, u, links.take(0), v),
        ).len() by {
            lemma_filter_agrees(
                all,
                awaited(n, edges@, done, v),
                awaited_except(n, edges@, done, u, links.take(0), v),
            );
        }
    }
    let mut j: usize = 0;
    while j < from_u.len()
        invariant
            j <= from_u@.len(),
            n == nodes as nat,
            all == indices(edges@.len()),
            all.no_duplicates(),
            links == links_from(n, edges@, u as int),
            links.no_duplicates(),
            from_u@ == with_targets(edges@, links),
            order@.take(head as int) == done,
            settling(n, edges@, waits@, order@, head as int, u, links.take(j as int)),
        decreases from_u@.len() - j,
    {
        let (e, t) = from_u[j];
        let ghost before = waits@;
        let ghost queue = order@;
        let ghost released = links.take(j as int);
        let ghost further = links.take(j + 1);
        proof {
            let link = links[j as int];
            assert(links.contains(link));
            lemma_filter_members(all, leads_from(n, edges@, u as int));
            assert(all.contains(link));
            let at = choose|at: int| 0 <= at < all.len() && all[at] == link;
            assert(link == at);
            assert(edges@.len() == edges.len());
            assert(from_u@[j as int] == (link as usize, edges@[link].1));
            assert(link == e as int);
            assert(leads_from(n, edges@, u as int)(e as int));
            assert(further == released.push(e as int));
            lemma_push_contains(released, e as int);
            assert(!released.contains(e as int)) by {
                if released.contains(e as int) {
                    let a = choose|a: int| 0 <= a < released.len() && released[a] == e as int;
                    assert(links[a] == links[j as int]);
                }
            }
            assert(!done.contains(u)) by {
                if done.contains(u) {
                    let a = choose|a: int| 0 <= a < done.len() && done[a] == u;
                    assert(queue[a] == queue[head as int]);
                }
            }
            assert(all[e as int] == e as int);
            assert forall|v: int| 0 <= v < n && v != t implies all.filter(
                awaited_except(n, edges@, done, u, further, v),
            ) == all.filter(awaited_except(n, edges@, done, u, released, v)) by {
                lemma_filter_agrees(
                    all,
                    awaited_except(n, edges@, done, u, further, v),
                    awaited_except(n, edges@, done, u, released, v),
                );
            }
            lemma_filter_loses_one(
                all,
                awaited_except(n, edges@, done, u, released, t as int),
                awaited_except(n, edges@, done, u, further, t as int),
                e as int,
            );
        }
        let left = waits[t] - 1;
        waits.set(t, left);
        if left == 0 {
            proof {
                lemma_push_contains(queue, t);
                lemma_filter_witness(all, awaited_except(n, edges@, done, u, further, t as int));
            }
            order.push(t);
            proof {
                assert(order@.take(head as int) =~= done);
                assert forall|i: int, b: int|
                    #![trigger is_link(n, edges@, i), order@[b]]
                    is_link(n, edges@, i) && 0 <= b < order@.len() && order@[b]
                        == edges@[i].1 implies placed_before(order@, edges@[i].0, b) by {
                    if b < queue.len() {
                        assert(queue[b] == order@[b]);
                        assert(placed_before(queue, edges@[i].0, b));
                        let a = choose|a: int|
                            0 <= a < b && a < queue.len() && #[trigger] queue[a] == edges@[i].0;
                        assert(order@[a] == edges@[i].0);
                    } else {
                        assert(all[i] == i);
                        assert(!awaited_except(n, edges@, done, u, further, t as int)(i));
                        if done.contains(edges@[i].0) {
                            let a = choose|a: int| 0 <= a < done.len() && done[a] == edges@[i].0;
                            assert(order@[a] == edges@[i].0);
                        } else {
                            assert(order@[head as int] == edges@[i].0);
                        }
                    }
                }
            }
        } else {
            proof {
                assert(!queue.contains(t));
            }
        }
        proof {
            assert forall|v: int| 0 <= v < n implies (order@.contains(v as usize)
                <==> #[trigger] waits@[v] == 0) by {
                assert(queue.contains(v as usize) <==> before[v] == 0);
                if v != t {
                    assert(waits@[v] == before[v]);
                }
            }
        }
        j = j + 1;
    }
    proof {
        assert(links.take(from_u@.len() as int) == links);
        let grown = order@.take(head + 1);
        assert(grown == done.push(u));
        lemma_push_contains(done, u);
        assert forall|v: int| 0 <= v < n implies #[trigger] waits@[v] == all.filter(
            awaited(n, edges@, grown, v),
        ).len() by {
            assert forall|x: int| 0 <= x < all.len() implies awaited_except(
                n,
                edges@,
                done,
                u,
                links,
                v,
            )(#[trigger] all[x]) == awaited(n, edges@, grown, v)(all[x]) by {
                assert(all[x] == x);
                if is_link(n, edges@, x) && edges@[x].0 == u {
                    assert(all.contains(all[x]));
                    assert(leads_from(n, edges@, u as int)(x));
                    assert(links.contains(x));
                }
            }
            lemma_filter_agrees(
                all,
                awaited_except(n, edges@, done, u, links, v),
                awaited(n, edges@, grown, v),
            );
        }
    }
}

/// Releases the neurons in the order in which they become ready, starting
/// with `inputs`: the neurons at which no link ends.
fn release_all(
    nodes: usize,
    edges: &Vec<(usize, usize)>,
    incoming: &Vec<Vec<(usize, usize)>>,
    outgoing: &Vec<Vec<(usize, usize)>>,
    inputs: &Vec<usize>,
) -> (r: (Vec<usize>, Ghost<Seq<usize>>))
    requires
        lists_links(nodes as nat, edges@, edges@.len(), true, incoming@),
        lists_links(nodes as nat, edges@, edges@.len(), false, outgoing@),
        as_ints(inputs@) == indices(nodes as nat).filter(
            |v: int| 0 <= v < incoming@.len() && incoming@[v]@.len() == 0,
        ),
        forall|k: int| 0 <= k < inputs@.len() ==> inputs@[k] < nodes,
    ensures
        settled(nodes as nat, edges@, r.1@, r.0@, r.0@.len() as int),
{
    let ghost n = nodes as nat;
    let ghost all = indices(edges@.len());
    let mut waits: Vec<usize> = Vec::new();
    let mut v: usize = 0;
    while v < nodes
        invariant
            v <= nodes,
            n == nodes as nat,
            waits@.len() == v,
            lists_links(n, edges@, edges@.len(), true, incoming@),
            forall|w: int| 0 <= w < v ==> #[trigger] waits@[w] == incoming@[w]@.len(),
        decreases nodes - v,
    {
        waits.push(incoming[v].len());
        v = v + 1;
    }
    let mut order: Vec<usize> = Vec::new();
    let mut k: usize = 0;
    while k < inputs.len()
        invariant
            k <= inputs@.len(),
            order@ == inputs@.take(k as int),
        decreases inputs@.len() - k,
    {
        order.push(inputs[k]);
        assert(inputs@.take(k + 1) == inputs@.take(k as int).push(inputs@[k as int]));
        k = k + 1;
    }
    proof {
        assert(inputs@.take(inputs@.len() as int) == inputs@);
        let ready = |v: int| 0 <= v < incoming@.len() && incoming@[v]@.len() == 0;
        lemma_filter_members(indices(n), ready);
        assert(indices(n).no_duplicates());
        assert(order@.no_duplicates()) by {
            assert forall|a: int, b: int| 0 <= a < order@.len() && 0 <= b < order@.len() && a
                != b implies order@[a] != order@[b] by {
                assert(as_ints(order@)[a] != as_ints(order@)[b]);
            }
        }
        assert(order@.take(0) =~= Seq::<usize>::empty());
        assert forall|v: int| 0 <= v < n implies #[trigger] waits@[v] == all.filter(
            awaited(n, edges@, order@.take(0), v),
        ).len() by {
            lemma_filter_agrees(
                all,
                leads_into(n, edges@, v),
                awaited(n, edges@, order@.take(0), v),
            );
            assert(incoming@[v]@.len() == links_into(n, edges@, v).len());
        }
        assert forall|v: int| 0 <= v < n implies (order@.contains(v as usize)
            <==> #[trigger] waits@[v] == 0) by {
            assert(indices(n)[v] == v);
            assert(indices(n).contains(v));
            if order@.contains(v as usize) {
                let a = choose|a: int| 0 <= a < order@.len() && order@[a] == v as usize;
                assert(as_ints(order@)[a] == v);
                assert(as_ints(order@).contains(v));
            }
            if waits@[v] == 0 {
                assert(ready(v));
                assert(as_ints(order@).contains(v));
                let a = choose|a: int| 0 <= a < order@.len() && as_ints(order@)[a] == v;
                assert(order@[a] == v as usize);
            }
        }
        assert forall|i: int, b: int|
            #![trigger is_link(n, edges@, i), order@[b]]
            is_link(n, edges@, i) && 0 <= b < order@.len() && order@[b]
                == edges@[i].1 implies placed_before(order@, edges@[i].0, b) by {
            let t = order@[b] as int;
            assert(order@.contains(order@[b]));
            assert(waits@[t] == 0);
            lemma_filter_witness(all, awaited(n, edges@, order@.take(0), t));
            assert(all[i] == i);
            assert(awaited(n, edges@, order@.take(0), t)(all[i]));
        }
    }
    let mut head: usize = 0;
    while head < order.len()
        invariant
            n == nodes as nat,
            lists_links(n, edges@, edges@.len(), false, outgoing@),
            settled(n, edges@, waits@, order@, head as int),
        decreases nodes - head,
    {
        proof {
            distinct_numbers_are_few(order@, n);
        }
        let u = order[head];
        release(nodes, edges, &outgoing[u], u, head, &mut waits, &mut order);
        head = head + 1;
    }
    (order, Ghost(waits@))
}

/// Once no neuron is left to release, `order` holds every neuron that a
/// topological order places: no neuron outside `order` can come first.
proof fn lemma_exhausted_holds_all(
    nodes: nat,
    edges: Seq<(usize, usize)>,
    waits: Seq<usize>,
    order: Seq<usize>,
    other: Seq<usize>,
    p: int,
)
    requires
        settled(nodes, edges, waits, order, order.len() as int),
        is_topological(nodes, edges, other),
        0 <= p < other.len(),
    ensures
        order.contains(other[p]),
    decreases p,
{
    let v = other[p];
    if !order.contains(v) {
        let all = indices(edges.len());
        assert(order.take(order.len() as int) == order);
        assert(waits[v as int] != 0);
        lemma_filter_witness(all, awaited(nodes, edges, order, v as int));
        let x = choose|x: int| 0 <= x < all.len() && awaited(nodes, edges, order, v as int)(
            #[trigger] all[x],
        );
        assert(all[x] == x);
        let source = edges[x].0;
        assert(other.contains(source));
        let q = choose|q: int| 0 <= q < other.len() && other[q] == source;
        assert(is_link(nodes, edges, x) && other[q] == edges[x].0 && other[p] == edges[x].1);
        assert(q < p);
        lemma_exhausted_holds_all(nodes, edges, waits, order, other, q);
    }
}

/// The layout of a network for the numeric engine.
#[derive(Debug)]
pub struct GraphStructure {
    /// For every neuron, the links that end at it, each with its source.
    pub incoming: Vec<Vec<(usize, usize)>>,
    /// For every neuron, the links that start at it, each with its target.
    pub outgoing: Vec<Vec<(usize, usize)>>,
    /// The neurons at which no link ends, ascending.
    pub inputs: Vec<usize>,
    /// The neurons at which no link starts, ascending.
    pub outputs: Vec<usize>,
    /// All neurons, each after all neurons that feed it.
    pub order: Vec<usize>,
}

/// Whether `layout` lays out the network: its lists are the links by
/// target and by source, its inputs and outputs are the neurons without
/// links in and out, and its order is a topological order.
pub open spec fn lays_out(nodes: nat, edges: Seq<(usize, usize)>, layout: GraphStructure) -> bool {
    &&& lists_links(nodes, edges, edges.len(), true, layout.incoming@)
    &&& lists_links(nodes, edges, edges.len(), false, layout.outgoing@)
    &&& as_ints(layout.inputs@) == indices(nodes).filter(is_input(nodes, edges))
    &&& as_ints(layout.outputs@) == indices(nodes).filter(is_output(nodes, edges))
    &&& is_topological(nodes, edges, layout.order@)
}

/// Lays out the network of `nodes` neurons with the links `edges`, or
/// reports that it contains a cycle. A layout is owed exactly if the
/// network has no cycle.
pub fn graph_structure(nodes: usize, edges: &Vec<(usize, usize)>) -> (r: Result<
    GraphStructure,
    NetworkError,
>)
    ensures
        match r {
            Ok(layout) => lays_out(nodes as nat, edges@, layout),
            Err(e) => e == NetworkError::CycleDetected && !acyclic(nodes as nat, edges@),
        },
{
    let ghost n = nodes as nat;
    let (incoming, outgoing) = adjacency(nodes, edges);
    let inputs = with_empty_list(&incoming);
    let outputs = with_empty_list(&outgoing);
    proof {
        lemma_filter_agrees(
            indices(n),
            |v: int| 0 <= v < incoming@.len() && incoming@[v]@.len() == 0,
            is_input(n, edges@),
        );
        lemma_filter_agrees(
            indices(n),
            |v: int| 0 <= v < outgoing@.len() && outgoing@[v]@.len() == 0,
            is_output(n, edges@),
        );
    }
    let (order, Ghost(waits)) = release_all(nodes, edges, &incoming, &outgoing, &inputs);
    proof {
        distinct_numbers_are_few(order@, n);
    }
    if order.len() != nodes {
        proof {
            if acyclic(n, edges@) {
                let other = choose|other: Seq<usize>| is_topological(n, edges@, other);
                assert forall|v: usize| v < n implies #[trigger] order@.contains(v) by {
                    assert(other.contains(v));
                    let p = choose|p: int| 0 <= p < other.len() && other[p] == v;
                    lemma_exhausted_holds_all(n, edges@, waits, order@, other, p);
                }
            }
        }
        return Err(NetworkError::CycleDetected);
    }
    proof {
        assert forall|i: int, a: int, b: int|
            #![trigger is_link(n, edges@, i), order@[a], order@[b]]
            is_link(n, edges@, i) && 0 <= a < order@.len() && 0 <= b < order@.len() && order@[a]
                == edges@[i].0 && order@[b] == edges@[i].1 implies a < b by {
            assert(placed_before(order@, edges@[i].0, b));
            let c = choose|c: int| 0 <= c < b && c < order@.len() && #[trigger] order@[c]
                == edges@[i].0;
            assert(c == a);
        }
    }
    Ok(GraphStructure { incoming, outgoing, inputs, outputs, order })
}

} // verus!
