use aei_framework::collaborators::{adjacency, graph_structure, NetworkError};

fn position(order: &[usize], node: usize) -> usize {
    order.iter().position(|&x| x == node).unwrap()
}

#[test]
fn diamond_is_laid_out() {
    // 0 -> 1, 0 -> 2, 1 -> 3, 2 -> 3
    let edges = vec![(0, 1), (0, 2), (1, 3), (2, 3)];
    let layout = graph_structure(4, &edges).unwrap();
    assert_eq!(layout.inputs, vec![0]);
    assert_eq!(layout.outputs, vec![3]);
    assert_eq!(layout.incoming, vec![vec![], vec![(0, 0)], vec![(1, 0)], vec![(2, 1), (3, 2)]]);
    assert_eq!(layout.outgoing, vec![vec![(0, 1), (1, 2)], vec![(2, 3)], vec![(3, 3)], vec![]]);
    assert_eq!(layout.order, vec![0, 1, 2, 3]);
}

#[test]
fn every_neuron_comes_after_those_that_feed_it() {
    let edges = vec![(4, 0), (3, 4), (2, 3), (2, 0), (1, 4), (5, 5 + 1), (9, 0), (1, 3), (1, 3)];
    let layout = graph_structure(6, &edges).unwrap();
    let mut sorted = layout.order.clone();
    sorted.sort();
    assert_eq!(sorted, vec![0, 1, 2, 3, 4, 5]);
    for &(from, to) in &edges {
        if from < 6 && to < 6 {
            assert!(position(&layout.order, from) < position(&layout.order, to));
        }
    }
    assert_eq!(layout.inputs, vec![1, 2, 5]);
    assert_eq!(layout.outputs, vec![0, 5]);
    // Pairs that name no neuron are passed over, repeated links are kept.
    assert_eq!(layout.incoming[3], vec![(2, 2), (7, 1), (8, 1)]);
    assert!(layout.outgoing[5].is_empty());
}

#[test]
fn a_cycle_is_detected() {
    assert_eq!(graph_structure(3, &vec![(0, 1), (1, 2), (2, 1)]).err(), Some(NetworkError::CycleDetected));
    assert_eq!(graph_structure(2, &vec![(0, 1), (1, 0)]).err(), Some(NetworkError::CycleDetected));
    // A link from a neuron to itself is a cycle.
    assert_eq!(graph_structure(1, &vec![(0, 0)]).err(), Some(NetworkError::CycleDetected));
    // A cycle that leaves the network is none.
    assert!(graph_structure(2, &vec![(0, 1), (1, 2), (2, 0)]).is_ok());
}

#[test]
fn an_empty_network_has_an_empty_layout() {
    let layout = graph_structure(0, &vec![(0, 0)]).unwrap();
    assert!(layout.order.is_empty() && layout.inputs.is_empty() && layout.outputs.is_empty());
    let layout = graph_structure(3, &Vec::new()).unwrap();
    assert_eq!(layout.order, vec![0, 1, 2]);
    assert_eq!(layout.inputs, vec![0, 1, 2]);
    assert_eq!(layout.outputs, vec![0, 1, 2]);
    let (incoming, outgoing) = adjacency(2, &vec![(1, 0)]);
    assert_eq!(incoming, vec![vec![(0, 1)], vec![]]);
    assert_eq!(outgoing, vec![vec![], vec![(0, 0)]]);
}
