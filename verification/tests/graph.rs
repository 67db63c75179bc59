//! Dependency cycles.

use jobmanager::graph::find_dependency_cycle;

/// Whether the task at `position` waits for itself, by walking everything it waits for.
fn waits_for_itself(edges: &[Vec<usize>], position: usize) -> bool {
    let mut reached = vec![false; edges.len()];
    let mut pending = edges[position].clone();
    while let Some(next) = pending.pop() {
        if !reached[next] {
            reached[next] = true;
            pending.extend(&edges[next]);
        }
    }
    reached[position]
}

#[test]
fn a_graph_without_a_cycle_has_none_to_find() {
    assert_eq!(find_dependency_cycle(&Vec::new()), None);
    assert_eq!(find_dependency_cycle(&vec![vec![], vec![0], vec![0], vec![1, 2]]), None);
    assert_eq!(find_dependency_cycle(&vec![vec![1], vec![2], vec![]]), None);
}

#[test]
fn a_task_waiting_for_itself_is_a_cycle() {
    assert_eq!(find_dependency_cycle(&vec![vec![0]]), Some(0));
    assert_eq!(find_dependency_cycle(&vec![vec![], vec![1]]), Some(1));
}

/// Every graph of three tasks: a cycle is found exactly where there is one, and the task it is reported
/// at lies on it.
#[test]
fn a_cycle_is_found_exactly_where_there_is_one() {
    for bits in 0u32..512 {
        let edges: Vec<Vec<usize>> = (0..3)
            .map(|from| (0..3).filter(|to| bits >> (from * 3 + to) & 1 == 1).map(|to| to as usize).collect())
            .collect();

        match find_dependency_cycle(&edges) {
            Some(position) => assert!(waits_for_itself(&edges, position), "{edges:?}"),
            None => assert!((0..3).all(|position| !waits_for_itself(&edges, position)), "{edges:?}"),
        }
    }
}

/// A long chain is searched without running out of stack.
#[test]
fn a_long_chain_is_searched() {
    let count = 200_000;
    let mut edges: Vec<Vec<usize>> = (1..=count).map(|next| vec![next]).collect();
    edges.push(Vec::new());
    assert_eq!(find_dependency_cycle(&edges), None);

    edges[count].push(0);
    assert!(find_dependency_cycle(&edges).is_some());
}
