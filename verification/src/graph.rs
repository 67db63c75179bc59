//! Cycles among the dependencies a job description declares.

use vstd::prelude::*;

verus! {

/// Whether `edges` lead from each position of `path` to the one after it.
pub open spec fn is_path(edges: Seq<Seq<usize>>, path: Seq<int>) -> bool {
    &&& forall|i: int| 0 <= i < path.len() ==> 0 <= #[trigger] path[i] < edges.len()
    &&& forall|i: int|
        0 <= i < path.len() - 1 ==> #[trigger] leads_to(edges, path[i], path[i + 1])
}

/// Whether the task at `from` waits for the task at `to`.
pub open spec fn leads_to(edges: Seq<Seq<usize>>, from: int, to: int) -> bool {
    exists|k: int| 0 <= k < edges[from].len() && edges[from][k] == to
}

/// Whether `path` starts and ends at `position` and takes at least one step.
pub open spec fn is_cycle(edges: Seq<Seq<usize>>, position: int, path: Seq<int>) -> bool {
    path.len() >= 2 && path.first() == position && path.last() == position && is_path(edges, path)
}

/// Whether the task at `position` waits for itself, through however many others.
pub open spec fn on_cycle(edges: Seq<Seq<usize>>, position: int) -> bool {
    exists|path: Seq<int>| is_cycle(edges, position, path)
}

/// Whether no task waits for itself, through however many others.
pub open spec fn has_no_cycle(edges: Seq<Seq<usize>>) -> bool {
    forall|position: int| !#[trigger] on_cycle(edges, position)
}

/// Whether every edge names a position there is.
pub open spec fn in_range(edges: Seq<Seq<usize>>) -> bool {
    forall|from: int, k: int|
        0 <= from < edges.len() && 0 <= k < edges[from].len() ==> #[trigger] edges[from][k]
            < edges.len()
}

/// Whether `rank` numbers the positions so that every edge leads to a lower number, which makes
/// ascending numbers an order in which every task comes after those it waits for.
pub open spec fn is_ranking(edges: Seq<Seq<usize>>, rank: Map<int, int>) -> bool {
    forall|from: int, k: int|
        0 <= from < edges.len() && 0 <= k < edges[from].len() ==> rank[(
        #[trigger] edges[from][k]) as int] < rank[from]
}

/// Whether the tasks can be completed one after another, each after those it waits for.
pub open spec fn is_orderable(edges: Seq<Seq<usize>>) -> bool {
    exists|rank: Map<int, int>| is_ranking(edges, rank)
}

/// The positions each task of a description waits for.
pub open spec fn edges_of(positions_by_task: Seq<Vec<usize>>) -> Seq<Seq<usize>> {
    positions_by_task.map_values(|positions: Vec<usize>| positions@)
}

/// How far the search has come with a position.
#[derive(Clone, Copy, PartialEq, Eq, Structural)]
enum Visit {
    Unseen,
    OnStack,
    Done,
}

/// Every edge of a finished position leads to a position that finished before it.
spec fn finishes_in_order(edges: Seq<Seq<usize>>, states: Seq<Visit>, rank: Map<int, int>) -> bool {
    forall|from: int, k: int|
        0 <= from < edges.len() && states[from] == Visit::Done && 0 <= k < edges[from].len()
            ==> states[(#[trigger] edges[from][k]) as int] == Visit::Done
            && rank[edges[from][k] as int] < rank[from]
}

/// The stack is a path: each position on it is the edge its predecessor followed last, and every
/// edge followed before that leads to a finished position.
spec fn is_trail(edges: Seq<Seq<usize>>, states: Seq<Visit>, stack: Seq<(usize, usize)>) -> bool {
    &&& forall|i: int|
        0 <= i < stack.len() ==> (#[trigger] stack[i]).0 < edges.len() && stack[i].1
            <= edges[stack[i].0 as int].len() && states[stack[i].0 as int] == Visit::OnStack
    &&& forall|i: int|
        0 <= i < stack.len() - 1 ==> (#[trigger] stack[i]).1 >= 1 && edges[stack[i].0 as int][stack[i].1
            - 1] == stack[i + 1].0
    &&& forall|i: int, j: int|
        0 <= i < j < stack.len() ==> (#[trigger] stack[i]).0 != (#[trigger] stack[j]).0
    &&& forall|i: int, k: int|
        #![trigger stack[i], edges[stack[i].0 as int][k]]
        0 <= i < stack.len() && 0 <= k < stack[i].1 && (i == stack.len() - 1 || k < stack[i].1 - 1)
            ==> states[edges[stack[i].0 as int][k] as int] == Visit::Done
    &&& forall|p: int|
        0 <= p < states.len() && #[trigger] states[p] == Visit::OnStack ==> exists|i: int|
            0 <= i < stack.len() && (#[trigger] stack[i]).0 == p
}

/// Starting at an unvisited position puts it alone on the stack.
proof fn lemma_trail_starts(edges: Seq<Seq<usize>>, states: Seq<Visit>, start: usize)
    requires
        start < edges.len(),
        states.len() == edges.len(),
        forall|p: int| 0 <= p < states.len() ==> states[p] != Visit::OnStack,
    ensures
        is_trail(edges, states.update(start as int, Visit::OnStack), seq![(start, 0usize)]),
{
    let stack = seq![(start, 0usize)];
    let next = states.update(start as int, Visit::OnStack);
    assert forall|p: int| 0 <= p < next.len() && #[trigger] next[p]
        == Visit::OnStack implies exists|i: int|
        0 <= i < stack.len() && (#[trigger] stack[i]).0 == p by {
        assert(stack[0].0 == p);
    }
}

/// Following an edge to a finished position keeps the stack a trail.
proof fn lemma_trail_advances(
    edges: Seq<Seq<usize>>,
    states: Seq<Visit>,
    stack: Seq<(usize, usize)>,
    next: Seq<(usize, usize)>,
)
    requires
        is_trail(edges, states, stack),
        stack.len() > 0,
        stack.last().1 < edges[stack.last().0 as int].len(),
        states[edges[stack.last().0 as int][stack.last().1 as int] as int] == Visit::Done,
        stack.last().1 < usize::MAX,
        next == stack.update(stack.len() - 1, (stack.last().0, (stack.last().1 + 1) as usize)),
    ensures
        is_trail(edges, states, next),
{
    assert forall|p: int| 0 <= p < states.len() && #[trigger] states[p]
        == Visit::OnStack implies exists|i: int|
        0 <= i < next.len() && (#[trigger] next[i]).0 == p by {
        let i = choose|i: int| 0 <= i < stack.len() && (#[trigger] stack[i]).0 == p;
        assert(next[i].0 == p);
    }
    assert forall|i: int, k: int|
        #![trigger next[i], edges[next[i].0 as int][k]]
        0 <= i < next.len() && 0 <= k < next[i].1 && (i == next.len() - 1 || k < next[i].1
            - 1) implies states[edges[next[i].0 as int][k] as int] == Visit::Done by {
        assert(next[i].0 == stack[i].0);
        if i == next.len() - 1 && k == stack[i].1 {
        } else {
            assert(edges[stack[i].0 as int][k] == edges[next[i].0 as int][k]);
        }
    }
    assert forall|i: int| 0 <= i < next.len() - 1 implies (#[trigger] next[i]).1 >= 1
        && edges[next[i].0 as int][next[i].1 - 1] == next[i + 1].0 by {
        assert(next[i] == stack[i]);
        assert(next[i + 1].0 == stack[i + 1].0);
    }
}

/// Following an edge to an unvisited position puts that position on top of the stack.
proof fn lemma_trail_grows(
    edges: Seq<Seq<usize>>,
    states: Seq<Visit>,
    stack: Seq<(usize, usize)>,
    dependency: usize,
    next_states: Seq<Visit>,
    next: Seq<(usize, usize)>,
)
    requires
        in_range(edges),
        is_trail(edges, states, stack),
        states.len() == edges.len(),
        stack.len() > 0,
        stack.last().1 < edges[stack.last().0 as int].len(),
        edges[stack.last().0 as int][stack.last().1 as int] == dependency,
        dependency < edges.len(),
        states[dependency as int] == Visit::Unseen,
        stack.last().1 < usize::MAX,
        next == stack.update(
            stack.len() - 1,
            (stack.last().0, (stack.last().1 + 1) as usize),
        ).push((dependency, 0usize)),
        next_states == states.update(dependency as int, Visit::OnStack),
    ensures
        is_trail(edges, next_states, next),
{
    assert forall|i: int| 0 <= i < next.len() implies (#[trigger] next[i]).0 < edges.len()
        && next[i].1 <= edges[next[i].0 as int].len() && next_states[next[i].0 as int]
        == Visit::OnStack by {
        if i < stack.len() {
            assert(next[i].0 == stack[i].0);
        }
    }
    assert forall|i: int| 0 <= i < next.len() - 1 implies (#[trigger] next[i]).1 >= 1
        && edges[next[i].0 as int][next[i].1 - 1] == next[i + 1].0 by {
        if i < stack.len() - 1 {
            assert(next[i] == stack[i]);
            assert(next[i + 1].0 == stack[i + 1].0);
        }
    }
    assert forall|i: int, j: int| 0 <= i < j < next.len() implies (#[trigger] next[i]).0 != (
    #[trigger] next[j]).0 by {
        assert(next[i].0 == stack[i].0);
        if j < stack.len() {
            assert(next[j].0 == stack[j].0);
        }
    }
    assert forall|i: int, k: int|
        #![trigger next[i], edges[next[i].0 as int][k]]
        0 <= i < next.len() && 0 <= k < next[i].1 && (i == next.len() - 1 || k < next[i].1
            - 1) implies next_states[edges[next[i].0 as int][k] as int] == Visit::Done by {
        assert(next[i].0 == stack[i].0);
        assert(edges[stack[i].0 as int][k] == edges[next[i].0 as int][k]);
    }
    assert forall|p: int| 0 <= p < next_states.len() && #[trigger] next_states[p]
        == Visit::OnStack implies exists|i: int|
        0 <= i < next.len() && (#[trigger] next[i]).0 == p by {
        if p == dependency {
            assert(next[stack.len() as int].0 == p);
        } else {
            assert(states[p] == Visit::OnStack);
            let i = choose|i: int| 0 <= i < stack.len() && (#[trigger] stack[i]).0 == p;
            assert(next[i].0 == p);
        }
    }
}

/// Finishing the topmost position takes it off the stack.
proof fn lemma_trail_shrinks(
    edges: Seq<Seq<usize>>,
    states: Seq<Visit>,
    stack: Seq<(usize, usize)>,
    next_states: Seq<Visit>,
    next: Seq<(usize, usize)>,
)
    requires
        in_range(edges),
        is_trail(edges, states, stack),
        states.len() == edges.len(),
        stack.len() > 0,
        stack.last().1 == edges[stack.last().0 as int].len(),
        next == stack.drop_last(),
        next_states == states.update(stack.last().0 as int, Visit::Done),
    ensures
        is_trail(edges, next_states, next),
{
    let top = stack.last().0;
    assert forall|i: int| 0 <= i < next.len() implies (#[trigger] next[i]).0 < edges.len()
        && next[i].1 <= edges[next[i].0 as int].len() && next_states[next[i].0 as int]
        == Visit::OnStack by {
        assert(next[i] == stack[i]);
        assert(stack[i].0 != stack[stack.len() - 1].0);
    }
    assert forall|i: int| 0 <= i < next.len() - 1 implies (#[trigger] next[i]).1 >= 1
        && edges[next[i].0 as int][next[i].1 - 1] == next[i + 1].0 by {
        assert(next[i] == stack[i]);
        assert(next[i + 1] == stack[i + 1]);
    }
    assert forall|i: int, k: int|
        #![trigger next[i], edges[next[i].0 as int][k]]
        0 <= i < next.len() && 0 <= k < next[i].1 && (i == next.len() - 1 || k < next[i].1
            - 1) implies next_states[edges[next[i].0 as int][k] as int] == Visit::Done by {
        assert(next[i] == stack[i]);
        if k < stack[i].1 - 1 {
            assert(states[edges[stack[i].0 as int][k] as int] == Visit::Done);
        } else {
            assert(edges[stack[i].0 as int][stack[i].1 - 1] == stack[i + 1].0);
        }
    }
    assert forall|p: int| 0 <= p < next_states.len() && #[trigger] next_states[p]
        == Visit::OnStack implies exists|i: int|
        0 <= i < next.len() && (#[trigger] next[i]).0 == p by {
        assert(states[p] == Visit::OnStack);
        let i = choose|i: int| 0 <= i < stack.len() && (#[trigger] stack[i]).0 == p;
        assert(next[i].0 == p);
    }
}

/// A position on the stack that the topmost one leads to lies on a cycle.
proof fn lemma_trail_closes(
    edges: Seq<Seq<usize>>,
    states: Seq<Visit>,
    stack: Seq<(usize, usize)>,
    bottom: int,
    dependency: int,
)
    requires
        is_trail(edges, states, stack),
        0 <= bottom < stack.len(),
        stack[bottom].0 == dependency,
        leads_to(edges, stack.last().0 as int, dependency),
    ensures
        on_cycle(edges, dependency),
{
    let tail = stack.subrange(bottom, stack.len() as int);
    let path = tail.map_values(|entry: (usize, usize)| entry.0 as int).push(dependency);
    assert forall|i: int| 0 <= i < path.len() - 1 implies #[trigger] leads_to(
        edges,
        path[i],
        path[i + 1],
    ) by {
        let entry = stack[bottom + i];
        assert(tail[i] == entry);
        if i < tail.len() - 1 {
            assert(tail[i + 1] == stack[bottom + i + 1]);
            assert(edges[entry.0 as int][entry.1 - 1] == stack[bottom + i + 1].0);
        }
    }
    assert forall|i: int| 0 <= i < path.len() implies 0 <= #[trigger] path[i] < edges.len() by {
        if i < tail.len() {
            assert(tail[i] == stack[bottom + i]);
        } else {
            assert(path[i] == stack[bottom].0);
        }
    }
    assert(tail[0] == stack[bottom]);
    assert(is_cycle(edges, dependency, path));
}

/// Along a path every step has a lower rank than the one before it.
proof fn lemma_rank_falls(edges: Seq<Seq<usize>>, rank: Map<int, int>, path: Seq<int>, n: int)
    requires
        is_ranking(edges, rank),
        is_path(edges, path),
        0 <= n < path.len(),
    ensures
        rank[path[n]] <= rank[path[0]] - n,
    decreases n,
{
    if n > 0 {
        lemma_rank_falls(edges, rank, path, n - 1);
        assert(leads_to(edges, path[n - 1], path[n - 1 + 1]));
        let from = path[n - 1];
        let to = path[n];
        let k = choose|k: int| 0 <= k < edges[from].len() && edges[from][k] == to;
        assert(edges[from][k] == to);
    }
}

/// Tasks that can be completed one after another do not wait for themselves, through however many
/// others.
pub proof fn law_orderable_graph_has_no_cycle(edges: Seq<Seq<usize>>)
    requires
        is_orderable(edges),
    ensures
        forall|position: int| !#[trigger] on_cycle(edges, position),
{
    let rank = choose|rank: Map<int, int>| is_ranking(edges, rank);
    assert forall|position: int| !#[trigger] on_cycle(edges, position) by {
        if on_cycle(edges, position) {
            let path = choose|path: Seq<int>| is_cycle(edges, position, path);
            lemma_rank_falls(edges, rank, path, path.len() - 1);
        }
    }
}

/// Whether a path of this many steps starts at `from`.
spec fn has_path(edges: Seq<Seq<usize>>, from: int, steps: int) -> bool {
    exists|path: Seq<int>|
        #[trigger] is_path(edges, path) && path.len() == steps + 1 && path.first() == from
}

/// The steps of the longest path from `from` that takes at most `bound` steps.
spec fn longest_path(edges: Seq<Seq<usize>>, from: int, bound: int) -> int
    decreases bound,
{
    if bound <= 0 {
        0
    } else if has_path(edges, from, bound) {
        bound
    } else {
        longest_path(edges, from, bound - 1)
    }
}

/// The longest path is a path, and no path within the bound is longer.
proof fn lemma_longest_path(edges: Seq<Seq<usize>>, from: int, bound: int)
    requires
        0 <= from < edges.len(),
        bound >= 0,
    ensures
        0 <= longest_path(edges, from, bound) <= bound,
        has_path(edges, from, longest_path(edges, from, bound)),
        forall|steps: int|
            0 <= steps <= bound && #[trigger] has_path(edges, from, steps) ==> steps
                <= longest_path(edges, from, bound),
    decreases bound,
{
    if bound == 0 {
        let path = seq![from];
        assert(is_path(edges, path) && path.len() == 1 && path.first() == from);
    } else if !has_path(edges, from, bound) {
        lemma_longest_path(edges, from, bound - 1);
    }
}

/// Where no task waits for itself, a path visits no task twice, so it is no longer than there are tasks.
proof fn lemma_paths_are_short(edges: Seq<Seq<usize>>, path: Seq<int>)
    requires
        forall|position: int| !#[trigger] on_cycle(edges, position),
        is_path(edges, path),
    ensures
        path.len() <= edges.len(),
{
    if !path.no_duplicates() {
        let (i, j) = choose|i: int, j: int|
            0 <= i < j < path.len() && #[trigger] path[i] == #[trigger] path[j];
        let cycle = path.subrange(i, j + 1);
        assert forall|k: int| 0 <= k < cycle.len() - 1 implies #[trigger] leads_to(
            edges,
            cycle[k],
            cycle[k + 1],
        ) by {
            assert(leads_to(edges, path[i + k], path[i + k + 1]));
        }
        assert(is_cycle(edges, path[i], cycle));
        assert(on_cycle(edges, path[i]));
    }
    path.unique_seq_to_set();
    let positions = vstd::set_lib::set_int_range(0, edges.len() as int);
    vstd::set_lib::lemma_int_range(0, edges.len() as int);
    assert(path.to_set().subset_of(positions));
    vstd::set_lib::lemma_len_subset(path.to_set(), positions);
}

/// Tasks of which none waits for itself can be completed one after another.
pub proof fn law_acyclic_graph_is_orderable(edges: Seq<Seq<usize>>)
    requires
        in_range(edges),
        forall|position: int| !#[trigger] on_cycle(edges, position),
    ensures
        is_orderable(edges),
{
    let count = edges.len() as int;
    let rank = Map::<int, int>::new(
        |position: int| 0 <= position < count,
        |position: int| longest_path(edges, position, count),
    );
    assert forall|from: int, k: int|
        0 <= from < edges.len() && 0 <= k < edges[from].len() implies rank[(
    #[trigger] edges[from][k]) as int] < rank[from] by {
        let to = edges[from][k] as int;
        lemma_longest_path(edges, from, count);
        lemma_longest_path(edges, to, count);
        let steps = longest_path(edges, to, count);
        let path = choose|path: Seq<int>|
            #[trigger] is_path(edges, path) && path.len() == steps + 1 && path.first() == to;
        let longer = seq![from] + path;
        assert forall|i: int| 0 <= i < longer.len() - 1 implies #[trigger] leads_to(
            edges,
            longer[i],
            longer[i + 1],
        ) by {
            if i == 0 {
                assert(edges[from][k] == longer[1]);
            } else {
                assert(leads_to(edges, path[i - 1], path[i - 1 + 1]));
            }
        }
        assert(is_path(edges, longer));
        lemma_paths_are_short(edges, longer);
        assert(has_path(edges, from, steps + 1));
    }
    assert(is_ranking(edges, rank));
}

/// Position of a task that lies on a dependency cycle, or `None` when the graph is acyclic.
///
/// Depth-first search with three states: a position reached while it is still on the stack closes a
/// cycle.
pub fn find_dependency_cycle(positions_by_task: &Vec<Vec<usize>>) -> (found: Option<usize>)
    requires
        in_range(edges_of(positions_by_task@)),
    ensures
        found matches Some(position) ==> position < positions_by_task@.len() && on_cycle(
            edges_of(positions_by_task@),
            position as int,
        ),
        found is None ==> has_no_cycle(edges_of(positions_by_task@)),
{
    let ghost edges = edges_of(positions_by_task@);
    let count: usize = positions_by_task.len();
    let mut states: Vec<Visit> = Vec::new();
    let mut filled: usize = 0;
    while filled < count
        invariant
            filled <= count,
            states@.len() == filled,
            forall|i: int| 0 <= i < filled ==> states@[i] == Visit::Unseen,
        decreases count - filled,
    {
        states.push(Visit::Unseen);
        filled = filled + 1;
    }
    let ghost mut rank: Map<int, int> = Map::empty();
    let ghost mut finished: int = 0;
    let mut start: usize = 0;
    // An explicit stack rather than recursion: a job may declare arbitrarily many initial tasks, and
    // the depth of the graph is not bounded by anything the description's author controls.
    while start < count
        invariant
            edges == edges_of(positions_by_task@),
            in_range(edges),
            count == positions_by_task@.len(),
            states@.len() == count,
            start <= count,
            forall|p: int| 0 <= p < start ==> states@[p] == Visit::Done,
            forall|p: int| 0 <= p < count ==> states@[p] != Visit::OnStack,
            forall|p: int|
                0 <= p < count && #[trigger] states@[p] == Visit::Done ==> rank[p] < finished,
            finishes_in_order(edges, states@, rank),
        decreases count - start,
    {
        if states[start] != Visit::Unseen {
            start = start + 1;
            continue;
        }
        let ghost states_before = states@;
        let mut stack: Vec<(usize, usize)> = Vec::new();
        stack.push((start, 0));
        states.set(start, Visit::OnStack);
        let ghost mut unseen: Set<int> = Set::new(
            |p: int| 0 <= p < count && states@[p] == Visit::Unseen,
        );
        proof {
            lemma_positions_are_finite(count as int, unseen);
            lemma_trail_starts(edges, states_before, start);
            assert(stack@ =~= seq![(start, 0usize)]);
        }
        while stack.len() > 0
            invariant
                edges == edges_of(positions_by_task@),
                in_range(edges),
                count == positions_by_task@.len(),
                states@.len() == count,
                start < count,
                states@[start as int] != Visit::Unseen,
                forall|p: int| 0 <= p < start ==> states@[p] == Visit::Done,
                forall|p: int|
                    0 <= p < count && #[trigger] states@[p] == Visit::Done ==> rank[p] < finished,
                finishes_in_order(edges, states@, rank),
                is_trail(edges, states@, stack@),
                unseen.finite(),
                forall|p: int|
                    #![trigger unseen.contains(p)]
                    #![trigger states@[p]]
                    unseen.contains(p) <==> 0 <= p < count && states@[p] == Visit::Unseen,
            decreases
                    unseen.len(),
                    stack@.len(),
                    edges[stack@.last().0 as int].len() - stack@.last().1,
        {
            let top: usize = stack.len() - 1;
            let (position, next_edge) = stack[top];
            assert(edges[position as int] == positions_by_task@[position as int]@);
            if next_edge < positions_by_task[position].len() {
                let dependency: usize = positions_by_task[position][next_edge];
                assert(edges[position as int][next_edge as int] == dependency);
                let ghost before = stack@;
                let ghost states_before = states@;
                stack.set(top, (position, next_edge + 1));
                match states[dependency] {
                    Visit::OnStack => {
                        proof {
                            let bottom = choose|i: int|
                                0 <= i < before.len() && (#[trigger] before[i]).0 == dependency;
                            lemma_trail_closes(edges, states@, before, bottom, dependency as int);
                        }
                        return Some(dependency);
                    },
                    Visit::Unseen => {
                        states.set(dependency, Visit::OnStack);
                        stack.push((dependency, 0));
                        proof {
                            unseen = unseen.remove(dependency as int);
                            lemma_trail_grows(
                                edges,
                                states_before,
                                before,
                                dependency,
                                states@,
                                stack@,
                            );
                        }
                    },
                    Visit::Done => {
                        proof {
                            lemma_trail_advances(edges, states@, before, stack@);
                        }
                    },
                }
            } else {
                let ghost before = stack@;
                let ghost states_before = states@;
                stack.pop();
                states.set(position, Visit::Done);
                proof {
                    lemma_trail_shrinks(edges, states_before, before, states@, stack@);
                    rank = rank.insert(position as int, finished);
                    finished = finished + 1;
                }
            }
        }
        start = start + 1;
    }
    proof {
        assert(is_ranking(edges, rank));
        law_orderable_graph_has_no_cycle(edges);
    }
    None
}

/// Positions below a bound are finitely many.
proof fn lemma_positions_are_finite(count: int, positions: Set<int>)
    requires
        forall|p: int| positions.contains(p) ==> 0 <= p < count,
    ensures
        positions.finite(),
{
    vstd::set_lib::lemma_int_range(0, if count < 0 {
        0
    } else {
        count
    });
    assert(positions.subset_of(vstd::set_lib::set_int_range(0, if count < 0 {
        0
    } else {
        count
    })));
}

} // verus!
