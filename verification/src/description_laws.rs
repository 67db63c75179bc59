//! Which descriptions of jobs and pools are accepted, and what they come to.

use vstd::prelude::*;

use crate::builder::{
    build_registry, build_worker_config, builds, builds_all, builds_registry, chained, JobBuilder,
    JobBuilderView,
};
use crate::cleaner::JobCleanerConfig;
use crate::code::{JobCode, TaskCode};
use crate::definition::{
    bind_initial, bind_runtime, definitions_of, dependency_edges, described_dependencies,
    described_executors, described_tasks, description, first_refusal, first_refusal_in,
    idle_tolerance_refusal, is_acyclic, merged_dependencies, own_dependencies,
    position_of, position_refusal, task_views, with_lists, JobDefinition, JobDefinitionId,
    JobDefinitionView, TaskLimits,
};
use crate::error::{Error, ErrorView};
use crate::executors::{ExecutorId, TaskExecutors};
use crate::graph::{
    edges_of, find_dependency_cycle, in_range, is_orderable, is_ranking,
    law_acyclic_graph_is_orderable, law_orderable_graph_has_no_cycle,
};
use crate::manager::JobsManagerConfig;
use crate::poll::{WorkerConfig, WorkerConfigView};
use crate::pool::{no_backend_text, Backend, JobsManagerBuilder, PoolDraft, StorageChoice};
use crate::registry::{job_codes, job_views, registered, JobRegistry};
use crate::retrier::RetrierConfig;
use crate::schedule_laws::{a_millisecond, a_year, is_brief, is_patient};
use crate::task::{TaskDefinition, TaskDefinitionView, TaskRef, TaskRefKind};
use crate::time::{is_delta, Duration};

verus! {

// Executors

/// Whether the executors are exactly those the bindings name.
pub open spec fn is_bound(
    executors: Map<Seq<char>, ExecutorId>,
    bindings: Seq<(Seq<char>, ExecutorId)>,
) -> bool {
    &&& forall|i: int|
        0 <= i < bindings.len() ==> executors.contains_key((#[trigger] bindings[i]).0)
            && executors[bindings[i].0] == bindings[i].1
    &&& forall|code: Seq<char>| #[trigger]
        executors.contains_key(code) ==> exists|i: int|
            0 <= i < bindings.len() && (#[trigger] bindings[i]).0 == code
}

/// Whether no code is bound to two executors.
pub open spec fn agree(bindings: Seq<(Seq<char>, ExecutorId)>) -> bool {
    forall|i: int, j: int|
        0 <= i < bindings.len() && 0 <= j < bindings.len() && (#[trigger] bindings[i]).0 == (
        #[trigger] bindings[j]).0 ==> bindings[i].1 == bindings[j].1
}

/// One more binding is taken exactly where it agrees with the earlier ones.
proof fn lemma_one_more(
    executors: Map<Seq<char>, ExecutorId>,
    bindings: Seq<(Seq<char>, ExecutorId)>,
    more: (Seq<char>, ExecutorId),
)
    requires
        is_bound(executors, bindings),
    ensures
        agree(bindings),
        !(executors.contains_key(more.0) && executors[more.0] != more.1) <==> agree(
            bindings.push(more),
        ),
        agree(bindings.push(more)) ==> is_bound(
            executors.insert(more.0, more.1),
            bindings.push(more),
        ),
{
    let all = bindings.push(more);
    assert forall|i: int| 0 <= i < bindings.len() implies #[trigger] all[i] == bindings[i] by {}
    assert(all[bindings.len() as int] == more);
    if executors.contains_key(more.0) {
        let i = choose|i: int| 0 <= i < bindings.len() && (#[trigger] bindings[i]).0 == more.0;
        assert(all[i] == bindings[i]);
    }
    if agree(all) {
        let after = executors.insert(more.0, more.1);
        assert forall|i: int| 0 <= i < all.len() implies after.contains_key((#[trigger] all[i]).0)
            && after[all[i].0] == all[i].1 by {
            if i < bindings.len() {
                assert(all[i] == bindings[i]);
            }
        }
        assert forall|code: Seq<char>| #[trigger] after.contains_key(code) implies exists|i: int|
            0 <= i < all.len() && (#[trigger] all[i]).0 == code by {
            if code == more.0 {
                assert(all[bindings.len() as int].0 == code);
            } else {
                let i = choose|i: int| 0 <= i < bindings.len() && (#[trigger] bindings[i]).0 == code;
                assert(all[i].0 == code);
            }
        }
    }
}

/// The bindings of a prefix agree where all do.
proof fn lemma_prefix_agrees(bindings: Seq<(Seq<char>, ExecutorId)>, n: int)
    requires
        0 <= n <= bindings.len(),
        agree(bindings),
    ensures
        agree(bindings.take(n)),
{
    assert forall|i: int| 0 <= i < n implies #[trigger] bindings.take(n)[i] == bindings[i] by {}
}

/// The codes and executors of the initial tasks.
pub open spec fn initial_bindings(tasks: Seq<(TaskDefinitionView, ExecutorId)>) -> Seq<
    (Seq<char>, ExecutorId),
> {
    tasks.map_values(|task: (TaskDefinitionView, ExecutorId)| (task.0.code, task.1))
}

/// Whether a job with these limits can run the task: both spans are positive and can be counted, the
/// lifetime is no shorter than the timeout, an attempt is granted and the input fits.
pub open spec fn is_fit(task: TaskDefinitionView, limits: TaskLimits) -> bool {
    &&& task.timeout != 0 && is_delta(task.timeout)
    &&& task.max_lifetime != 0 && is_delta(task.max_lifetime)
    &&& task.timeout <= task.max_lifetime
    &&& task.max_attempts != 0
    &&& task.input.len() <= limits.max_input_bytes
}

proof fn lemma_bind_initial(
    job: Seq<char>,
    tasks: Seq<(TaskDefinitionView, ExecutorId)>,
    limits: TaskLimits,
)
    ensures
        bind_initial(job, tasks, limits) is Ok <==> agree(initial_bindings(tasks)) && forall|i: int|
            0 <= i < tasks.len() ==> is_fit((#[trigger] tasks[i]).0, limits),
        bind_initial(job, tasks, limits) matches Ok(executors) ==> is_bound(
            executors,
            initial_bindings(tasks),
        ),
    decreases tasks.len(),
{
    if tasks.len() > 0 {
        let rest = tasks.drop_last();
        let last = tasks.last();
        let n = rest.len() as int;
        lemma_bind_initial(job, rest, limits);
        assert(initial_bindings(tasks) =~= initial_bindings(rest).push((last.0.code, last.1)));
        assert(initial_bindings(tasks).take(n) =~= initial_bindings(rest));
        if agree(initial_bindings(tasks)) {
            lemma_prefix_agrees(initial_bindings(tasks), n);
        }
        assert forall|i: int| 0 <= i < n implies #[trigger] rest[i] == tasks[i] by {}
        assert(tasks[n] == last);
        if forall|i: int| 0 <= i < tasks.len() ==> is_fit((#[trigger] tasks[i]).0, limits) {
            assert forall|i: int| 0 <= i < n implies is_fit((#[trigger] rest[i]).0, limits) by {
                assert(is_fit(tasks[i].0, limits));
            }
        }
        if bind_initial(job, rest, limits) is Ok {
            lemma_one_more(
                bind_initial(job, rest, limits)->Ok_0,
                initial_bindings(rest),
                (last.0.code, last.1),
            );
            if is_fit(last.0, limits) {
                assert forall|i: int| 0 <= i < tasks.len() implies is_fit(
                    (#[trigger] tasks[i]).0,
                    limits,
                ) by {
                    if i < n {
                        assert(is_fit(rest[i].0, limits));
                    }
                }
            }
        }
    } else {
        assert(initial_bindings(tasks) =~= Seq::empty());
    }
}

proof fn lemma_bind_runtime(
    executors: Map<Seq<char>, ExecutorId>,
    bindings: Seq<(Seq<char>, ExecutorId)>,
    job: Seq<char>,
    runtime: Seq<(Seq<char>, ExecutorId)>,
)
    requires
        is_bound(executors, bindings),
    ensures
        bind_runtime(executors, job, runtime) is Ok <==> agree(bindings + runtime),
        bind_runtime(executors, job, runtime) matches Ok(all) ==> is_bound(all, bindings + runtime),
    decreases runtime.len(),
{
    if runtime.len() > 0 {
        let rest = runtime.drop_last();
        lemma_bind_runtime(executors, bindings, job, rest);
        assert(bindings + runtime =~= (bindings + rest).push(runtime.last()));
        assert((bindings + runtime).take((bindings + rest).len() as int) =~= bindings + rest);
        if agree(bindings + runtime) {
            lemma_prefix_agrees(bindings + runtime, (bindings + rest).len() as int);
        }
        if bind_runtime(executors, job, rest) is Ok {
            lemma_one_more(
                bind_runtime(executors, job, rest)->Ok_0,
                bindings + rest,
                runtime.last(),
            );
        }
    } else {
        assert(bindings + runtime =~= bindings);
        assert(agree(bindings)) by {
            lemma_one_more(executors, bindings, (seq!['a'], 0));
        }
    }
}

/// An executor is registered exactly where its code has no other one, alone, and is found afterwards.
pub proof fn law_code_has_one_executor(
    executors: &mut TaskExecutors,
    job: &JobCode,
    task: TaskCode,
    executor: ExecutorId,
    added: Result<(), Error>,
)
    requires
        call_ensures(TaskExecutors::register, (executors, job, task, executor), added),
    ensures
        added is Ok <==> (old(executors)@.contains_key(task@) ==> old(executors)@[task@]
            == executor),
        forall|code: Seq<char>| #[trigger]
            final(executors)@.contains_key(code) <==> old(executors)@.contains_key(code) || (added is Ok
                && code == task@),
        added is Ok ==> final(executors)@[task@] == executor,
        forall|code: Seq<char>|
            code != task@ && #[trigger] final(executors)@.contains_key(code)
                ==> final(executors)@[code] == old(executors)@[code],
        added is Err ==> final(executors)@ == old(executors)@,
{
}

/// An executor is found exactly where its code has one, and a new collection has none.
pub proof fn law_executor_is_found_by_its_code(
    executors: &TaskExecutors,
    code: &TaskCode,
    found: Option<ExecutorId>,
    fresh: TaskExecutors,
)
    ensures
        call_ensures(TaskExecutors::get, (executors, code), found) ==> {
            &&& found is Some <==> executors@.contains_key(code@)
            &&& found matches Some(executor) ==> executor == executors@[code@]
        },
        call_ensures(TaskExecutors::new, (), fresh) ==> forall|any: Seq<char>|
            !#[trigger] fresh@.contains_key(any),
        call_ensures(TaskExecutors::clone, (executors,), fresh) ==> fresh@ == executors@,
{
}

// Dependencies

/// Whether the reference names the initial task at this position of the description `id`.
pub open spec fn names(reference: TaskRef, id: JobDefinitionId, position: int) -> bool {
    reference@ matches TaskRefKind::Initial { job_definition, position: place } && job_definition
        == id && place == position
}

/// Whether the reference names one of the `count` initial tasks of the description `id`.
pub open spec fn names_some(reference: TaskRef, id: JobDefinitionId, count: int) -> bool {
    exists|position: int| 0 <= position < count && #[trigger] names(reference, id, position)
}

proof fn lemma_position(id: JobDefinitionId, job: Seq<char>, reference: TaskRef, count: int)
    ensures
        position_refusal(id, job, reference, count) is None <==> names_some(reference, id, count),
        names_some(reference, id, count) ==> names(reference, id, position_of(reference) as int)
            && position_of(reference) < count,
{
    if position_refusal(id, job, reference, count) is None {
        assert(names(reference, id, position_of(reference) as int));
    }
}

/// A reference resolves to the position it names, exactly where the description has it.
pub proof fn law_reference_resolves_to_its_position(
    id: JobDefinitionId,
    job: &JobCode,
    reference: TaskRef,
    count: usize,
    resolved: Result<usize, Error>,
)
    requires
        call_ensures(JobDefinition::resolve_initial_position, (id, job, reference, count), resolved),
    ensures
        resolved is Ok <==> names_some(reference, id, count as int),
        resolved matches Ok(position) ==> names(reference, id, position as int) && position < count,
{
    lemma_position(id, job@, reference, count as int);
}

/// Whether some declaration before the `n`th makes the task at `position` wait for `dependency`.
pub open spec fn is_declared(
    id: JobDefinitionId,
    declared: Seq<(TaskRef, Seq<TaskRef>)>,
    position: int,
    dependency: TaskRef,
) -> bool {
    exists|k: int|
        0 <= k < declared.len() && names((#[trigger] declared[k]).0, id, position)
            && declared[k].1.contains(dependency)
}

/// Whether `lists` are the dependencies `own` of each task followed by those declared for it.
pub open spec fn are_merged(
    id: JobDefinitionId,
    own: Seq<Seq<TaskRef>>,
    declared: Seq<(TaskRef, Seq<TaskRef>)>,
    lists: Seq<Seq<TaskRef>>,
) -> bool {
    &&& lists.len() == own.len()
    &&& forall|i: int|
        0 <= i < own.len() ==> own[i].len() <= (#[trigger] lists[i]).len() && lists[i].take(
            own[i].len() as int,
        ) == own[i]
    &&& forall|i: int, dependency: TaskRef|
        0 <= i < own.len() ==> (#[trigger] lists[i].contains(dependency) <==> own[i].contains(
            dependency,
        ) || is_declared(id, declared, i, dependency))
}

/// Whether every declaration is for a task there is.
pub open spec fn are_placed(
    id: JobDefinitionId,
    declared: Seq<(TaskRef, Seq<TaskRef>)>,
    count: int,
) -> bool {
    forall|k: int|
        0 <= k < declared.len() ==> names_some((#[trigger] declared[k]).0, id, count)
}

proof fn lemma_merged(
    id: JobDefinitionId,
    job: Seq<char>,
    own: Seq<Seq<TaskRef>>,
    declared: Seq<(TaskRef, Seq<TaskRef>)>,
)
    ensures
        merged_dependencies(id, job, own, declared) is Ok <==> are_placed(
            id,
            declared,
            own.len() as int,
        ),
        merged_dependencies(id, job, own, declared) matches Ok(lists) ==> are_merged(
            id,
            own,
            declared,
            lists,
        ),
    decreases declared.len(),
{
    let count = own.len() as int;
    if declared.len() > 0 {
        let rest = declared.drop_last();
        let n = rest.len() as int;
        let (task, dependencies) = declared.last();
        lemma_merged(id, job, own, rest);
        lemma_position(id, job, task, count);
        assert forall|k: int| 0 <= k < n implies #[trigger] rest[k] == declared[k] by {}
        assert(declared[n] == (task, dependencies));
        if are_placed(id, declared, count) {
            assert forall|k: int| 0 <= k < n implies names_some((#[trigger] rest[k]).0, id, count) by {
                assert(names_some(declared[k].0, id, count));
            }
            assert(names_some(declared[n].0, id, count));
        }
        if merged_dependencies(id, job, own, rest) is Ok && names_some(task, id, count) {
            assert forall|k: int| 0 <= k < declared.len() implies names_some(
                (#[trigger] declared[k]).0,
                id,
                count,
            ) by {
                if k < n {
                    assert(names_some(rest[k].0, id, count));
                }
            }
            let before = merged_dependencies(id, job, own, rest)->Ok_0;
            let place = position_of(task) as int;
            let lists = before.update(place, before[place] + dependencies);
            assert(merged_dependencies(id, job, own, declared) == Ok::<
                Seq<Seq<TaskRef>>,
                Seq<char>,
            >(lists));
            assert forall|i: int| 0 <= i < own.len() implies own[i].len() <= (
            #[trigger] lists[i]).len() && lists[i].take(own[i].len() as int) == own[i] by {
                assert(before[i].take(own[i].len() as int) == own[i]);
                assert(lists[i].take(own[i].len() as int) =~= before[i].take(own[i].len() as int));
            }
            assert forall|i: int, dependency: TaskRef| 0 <= i < own.len() implies (
            #[trigger] lists[i].contains(dependency) <==> own[i].contains(dependency)
                || is_declared(id, declared, i, dependency)) by {
                assert(before[i].contains(dependency) <==> own[i].contains(dependency)
                    || is_declared(id, rest, i, dependency));
                if is_declared(id, rest, i, dependency) {
                    let k = choose|k: int|
                        0 <= k < rest.len() && names((#[trigger] rest[k]).0, id, i)
                            && rest[k].1.contains(dependency);
                    assert(names(declared[k].0, id, i) && declared[k].1.contains(dependency));
                }
                if i == place {
                    lemma_contains_either(before[place], dependencies, dependency);
                    if dependencies.contains(dependency) {
                        assert(names(declared[n].0, id, i) && declared[n].1.contains(dependency));
                    }
                }
                if is_declared(id, declared, i, dependency) {
                    let k = choose|k: int|
                        0 <= k < declared.len() && names((#[trigger] declared[k]).0, id, i)
                            && declared[k].1.contains(dependency);
                    if k < n {
                        assert(names(rest[k].0, id, i) && rest[k].1.contains(dependency));
                    } else {
                        assert(names(task, id, i));
                        assert(i == place);
                    }
                }
            }
        }
    } else {
        assert forall|i: int| 0 <= i < own.len() implies #[trigger] own[i].take(
            own[i].len() as int,
        ) == own[i] by {
            assert(own[i].take(own[i].len() as int) =~= own[i]);
        }
    }
}

proof fn lemma_contains_either(some: Seq<TaskRef>, others: Seq<TaskRef>, one: TaskRef)
    ensures
        (some + others).contains(one) <==> some.contains(one) || others.contains(one),
{
    let all = some + others;
    if some.contains(one) {
        let i = choose|i: int| 0 <= i < some.len() && some[i] == one;
        assert(all[i] == one);
    }
    if others.contains(one) {
        let i = choose|i: int| 0 <= i < others.len() && others[i] == one;
        assert(all[some.len() + i] == one);
    }
    if all.contains(one) {
        let i = choose|i: int| 0 <= i < all.len() && all[i] == one;
        if i < some.len() {
            assert(some[i] == one);
        } else {
            assert(others[i - some.len()] == one);
        }
    }
}

/// Whether every dependency in the lists names a task there is.
pub open spec fn are_known(id: JobDefinitionId, lists: Seq<Seq<TaskRef>>, count: int) -> bool {
    forall|i: int, dependency: TaskRef|
        0 <= i < lists.len() && #[trigger] lists[i].contains(dependency) ==> names_some(
            dependency,
            id,
            count,
        )
}

proof fn lemma_first_refusal(
    id: JobDefinitionId,
    job: Seq<char>,
    references: Seq<TaskRef>,
    count: int,
)
    ensures
        first_refusal(id, job, references, count) is None <==> forall|dependency: TaskRef| #[trigger]
            references.contains(dependency) ==> names_some(dependency, id, count),
    decreases references.len(),
{
    if references.len() > 0 {
        let rest = references.drop_last();
        let last = references.last();
        lemma_first_refusal(id, job, rest, count);
        lemma_position(id, job, last, count);
        assert(references =~= rest + seq![last]);
        assert forall|dependency: TaskRef| #[trigger] references.contains(dependency)
            <==> rest.contains(dependency) || dependency == last by {
            lemma_contains_either(rest, seq![last], dependency);
            if dependency == last {
                assert(seq![last][0] == dependency);
                assert(seq![last].contains(dependency));
            }
        }
        assert(references.contains(last));
        assert forall|dependency: TaskRef| #[trigger]
            rest.contains(dependency) implies references.contains(dependency) by {}
    }
}

proof fn lemma_first_refusal_in(
    id: JobDefinitionId,
    job: Seq<char>,
    lists: Seq<Seq<TaskRef>>,
    count: int,
)
    ensures
        first_refusal_in(id, job, lists, count) is None <==> are_known(id, lists, count),
    decreases lists.len(),
{
    if lists.len() > 0 {
        let rest = lists.drop_last();
        let n = rest.len() as int;
        lemma_first_refusal_in(id, job, rest, count);
        lemma_first_refusal(id, job, lists.last(), count);
        assert forall|i: int| 0 <= i < n implies #[trigger] rest[i] == lists[i] by {}
        assert(lists[n] == lists.last());
        if are_known(id, lists, count) {
            assert forall|i: int, dependency: TaskRef|
                0 <= i < n && #[trigger] rest[i].contains(dependency) implies names_some(
                dependency,
                id,
                count,
            ) by {
                assert(lists[i].contains(dependency));
            }
            assert forall|dependency: TaskRef| #[trigger]
                lists.last().contains(dependency) implies names_some(dependency, id, count) by {
                assert(lists[n].contains(dependency));
            }
        }
        if first_refusal_in(id, job, lists, count) is None {
            assert forall|i: int, dependency: TaskRef|
                0 <= i < lists.len() && #[trigger] lists[i].contains(dependency) implies names_some(
                dependency,
                id,
                count,
            ) by {
                if i < n {
                    assert(rest[i].contains(dependency));
                }
            }
        }
    }
}

proof fn lemma_idle(job: Seq<char>, tasks: Seq<TaskDefinitionView>)
    ensures
        idle_tolerance_refusal(job, tasks) is None <==> forall|i: int|
            0 <= i < tasks.len() ==> !(#[trigger] tasks[i]).tolerates_nothing(),
    decreases tasks.len(),
{
    if tasks.len() > 0 {
        let rest = tasks.drop_last();
        let n = rest.len() as int;
        lemma_idle(job, rest);
        assert forall|i: int| 0 <= i < n implies #[trigger] rest[i] == tasks[i] by {}
        assert(tasks[n] == tasks.last());
        if forall|i: int| 0 <= i < tasks.len() ==> !(#[trigger] tasks[i]).tolerates_nothing() {
            assert forall|i: int| 0 <= i < n implies !(#[trigger] rest[i]).tolerates_nothing() by {
                assert(!tasks[i].tolerates_nothing());
            }
        }
        if idle_tolerance_refusal(job, tasks) is None {
            assert forall|i: int| 0 <= i < tasks.len() implies !(
            #[trigger] tasks[i]).tolerates_nothing() by {
                if i < n {
                    assert(!rest[i].tolerates_nothing());
                }
            }
        }
    }
}

/// Whether the numbers put every task after the tasks it waits for.
pub open spec fn is_order(
    id: JobDefinitionId,
    lists: Seq<Seq<TaskRef>>,
    rank: Map<int, int>,
) -> bool {
    forall|i: int, dependency: TaskRef, j: int|
        0 <= i < lists.len() && #[trigger] lists[i].contains(dependency) && #[trigger] names(
            dependency,
            id,
            j,
        ) ==> rank[j] < rank[i]
}

/// Whether the tasks can be worked through one after another, each after those it waits for.
pub open spec fn have_an_order(id: JobDefinitionId, lists: Seq<Seq<TaskRef>>) -> bool {
    exists|rank: Map<int, int>| #[trigger] is_order(id, lists, rank)
}

proof fn lemma_order(id: JobDefinitionId, lists: Seq<Seq<TaskRef>>)
    requires
        are_known(id, lists, lists.len() as int),
    ensures
        is_acyclic(dependency_edges(lists)) <==> have_an_order(id, lists),
{
    let edges = dependency_edges(lists);
    let count = lists.len() as int;
    assert forall|i: int, k: int| 0 <= i < count && 0 <= k < lists[i].len() implies {
        &&& #[trigger] edges[i][k] == position_of(lists[i][k])
        &&& edges[i][k] < count
        &&& names(lists[i][k], id, edges[i][k] as int)
    } by {
        assert(lists[i].contains(lists[i][k]));
        lemma_position(id, seq!['a'], lists[i][k], count);
    }
    assert(in_range(edges));
    assert forall|rank: Map<int, int>| is_ranking(edges, rank) <==> #[trigger] is_order(
        id,
        lists,
        rank,
    ) by {
        if is_ranking(edges, rank) {
            assert forall|i: int, dependency: TaskRef, j: int|
                0 <= i < lists.len() && #[trigger] lists[i].contains(dependency)
                    && #[trigger] names(dependency, id, j) implies rank[j] < rank[i] by {
                let k = choose|k: int| 0 <= k < lists[i].len() && lists[i][k] == dependency;
                assert(edges[i][k] == j);
            }
        }
        if is_order(id, lists, rank) {
            assert forall|from: int, k: int|
                0 <= from < edges.len() && 0 <= k < edges[from].len() implies rank[(
            #[trigger] edges[from][k]) as int] < rank[from] by {
                assert(lists[from].contains(lists[from][k]));
                assert(names(lists[from][k], id, edges[from][k] as int));
            }
        }
    }
    if is_acyclic(edges) {
        law_acyclic_graph_is_orderable(edges);
        let rank = choose|rank: Map<int, int>| is_ranking(edges, rank);
        assert(is_order(id, lists, rank));
    }
    if have_an_order(id, lists) {
        let rank = choose|rank: Map<int, int>| #[trigger] is_order(id, lists, rank);
        assert(is_ranking(edges, rank));
        law_orderable_graph_has_no_cycle(edges);
    }
}

/// The dependencies of the tasks.
pub open spec fn lists_of(tasks: Seq<TaskDefinitionView>) -> Seq<Seq<TaskRef>> {
    Seq::new(tasks.len(), |i: int| tasks[i].depends_on)
}

/// Whether the tasks differ, if at all, in what they wait for.
pub open spec fn are_same_but_for_dependencies(
    some: Seq<TaskDefinitionView>,
    others: Seq<TaskDefinitionView>,
) -> bool {
    &&& some.len() == others.len()
    &&& forall|i: int|
        0 <= i < some.len() ==> (TaskDefinitionView {
            depends_on: others[i].depends_on,
            ..#[trigger] some[i]
        }) == others[i]
}

/// Declared dependencies are added, exactly where each is declared for a task there is, to what that
/// task already waits for.
pub proof fn law_declared_dependencies_are_added(
    id: JobDefinitionId,
    job: &JobCode,
    tasks: Vec<TaskDefinition>,
    declared: Vec<(TaskRef, Vec<TaskRef>)>,
    merged: Result<Vec<TaskDefinition>, Error>,
)
    requires
        call_ensures(
            JobDefinition::merge_declared_dependencies,
            (id, job, tasks, declared),
            merged,
        ),
    ensures
        ({
            let given = task_views(tasks@);
            let added = described_dependencies(declared@);
            &&& merged is Ok <==> are_placed(id, added, tasks@.len() as int)
            &&& merged matches Ok(merged) ==> {
                &&& are_same_but_for_dependencies(given, task_views(merged@))
                &&& are_merged(id, lists_of(given), added, lists_of(task_views(merged@)))
            }
        }),
{
    let given = task_views(tasks@);
    let added = described_dependencies(declared@);
    let own = own_dependencies(given);
    lemma_merged(id, job@, own, added);
    assert(own =~= lists_of(given));
    if merged is Ok {
        let lists = merged_dependencies(id, job@, own, added)->Ok_0;
        assert(lists_of(task_views(merged->Ok_0@)) =~= lists);
    }
}

/// A description's dependencies are accepted exactly where each names a task there is and the tasks can
/// be worked through one after another.
pub proof fn law_dependencies_are_accepted_exactly_when_orderable(
    id: JobDefinitionId,
    job: &JobCode,
    tasks: &Vec<TaskDefinition>,
    valid: Result<(), Error>,
)
    requires
        call_ensures(
            JobDefinition::validate_initial_task_dependencies,
            (id, job, tasks),
            valid,
        ),
    ensures
        ({
            let lists = lists_of(task_views(tasks@));
            valid is Ok <==> are_known(id, lists, tasks@.len() as int) && have_an_order(id, lists)
        }),
{
    let lists = own_dependencies(task_views(tasks@));
    assert(lists =~= lists_of(task_views(tasks@)));
    lemma_first_refusal_in(id, job@, lists, tasks@.len() as int);
    if are_known(id, lists, tasks@.len() as int) {
        lemma_order(id, lists);
    }
}

/// A cycle is found exactly where the tasks cannot be numbered so that each waits for lower ones alone.
pub proof fn law_cycle_is_found_exactly_where_there_is_no_order(
    positions: &Vec<Vec<usize>>,
    found: Option<usize>,
)
    requires
        call_ensures(find_dependency_cycle, (positions,), found),
        in_range(edges_of(positions@)),
    ensures
        found is None <==> exists|rank: Map<int, int>| #[trigger]
            is_ranking(edges_of(positions@), rank),
        found matches Some(position) ==> position < positions@.len(),
{
    let edges = edges_of(positions@);
    if found is None {
        law_acyclic_graph_is_orderable(edges);
        let rank = choose|rank: Map<int, int>| is_ranking(edges, rank);
        assert(is_ranking(edges, rank));
    }
    if exists|rank: Map<int, int>| #[trigger] is_ranking(edges, rank) {
        let rank = choose|rank: Map<int, int>| #[trigger] is_ranking(edges, rank);
        assert(is_orderable(edges));
        law_orderable_graph_has_no_cycle(edges);
    }
}

// Jobs

/// Whether the tasks, with everything declared for them, make a job: there is one, each can be run, no
/// code has two executors, every dependency is a task of the description, tolerance is declared only
/// where there is something to tolerate, and the tasks can be worked through one after another.
pub open spec fn is_sound(
    id: JobDefinitionId,
    tasks: Seq<(TaskDefinitionView, ExecutorId)>,
    runtime: Seq<(Seq<char>, ExecutorId)>,
    declared: Seq<(TaskRef, Seq<TaskRef>)>,
    limits: TaskLimits,
    lists: Seq<Seq<TaskRef>>,
) -> bool {
    &&& tasks.len() > 0
    &&& forall|i: int| 0 <= i < tasks.len() ==> is_fit((#[trigger] tasks[i]).0, limits)
    &&& agree(initial_bindings(tasks) + runtime)
    &&& are_placed(id, declared, tasks.len() as int)
    &&& are_merged(id, lists_of(definitions_of(tasks)), declared, lists)
    &&& are_known(id, lists, tasks.len() as int)
    &&& forall|i: int|
        0 <= i < tasks.len() ==> (#[trigger] lists[i]).len() > 0 || (
        !tasks[i].0.tolerance.allows_failed && !tasks[i].0.tolerance.allows_skipped)
    &&& have_an_order(id, lists)
}

proof fn lemma_description(
    id: JobDefinitionId,
    job: Seq<char>,
    tasks: Seq<(TaskDefinitionView, ExecutorId)>,
    runtime: Seq<(Seq<char>, ExecutorId)>,
    declared: Seq<(TaskRef, Seq<TaskRef>)>,
    limits: TaskLimits,
)
    ensures
        match description(id, job, tasks, runtime, declared, limits) {
            Err(_) => forall|lists: Seq<Seq<TaskRef>>|
                !#[trigger] is_sound(id, tasks, runtime, declared, limits, lists),
            Ok((executors, lists)) => {
                &&& lists.len() == tasks.len()
                &&& is_bound(executors, initial_bindings(tasks) + runtime)
                &&& is_acyclic(dependency_edges(lists)) <==> is_sound(
                    id,
                    tasks,
                    runtime,
                    declared,
                    limits,
                    lists,
                )
                &&& !is_acyclic(dependency_edges(lists)) ==> forall|others: Seq<Seq<TaskRef>>|
                    !#[trigger] is_sound(id, tasks, runtime, declared, limits, others)
            },
        },
{
    let count = tasks.len() as int;
    let own = own_dependencies(definitions_of(tasks));
    assert(own =~= lists_of(definitions_of(tasks)));
    lemma_bind_initial(job, tasks, limits);
    let initial = initial_bindings(tasks);
    if agree(initial + runtime) {
        assert((initial + runtime).take(initial.len() as int) =~= initial);
        lemma_prefix_agrees(initial + runtime, initial.len() as int);
    }
    if bind_initial(job, tasks, limits) is Ok {
        let executors = bind_initial(job, tasks, limits)->Ok_0;
        lemma_bind_runtime(executors, initial, job, runtime);
    }
    lemma_merged(id, job, own, declared);
    if merged_dependencies(id, job, own, declared) is Ok {
        let lists = merged_dependencies(id, job, own, declared)->Ok_0;
        let merged = with_lists(definitions_of(tasks), lists);
        lemma_idle(job, merged);
        lemma_first_refusal_in(id, job, lists, count);
        assert forall|i: int| 0 <= i < count implies ((#[trigger] merged[i]).tolerates_nothing()
            <==> !(lists[i].len() > 0 || (!tasks[i].0.tolerance.allows_failed
            && !tasks[i].0.tolerance.allows_skipped))) by {}
        if are_known(id, lists, count) {
            lemma_order(id, lists);
        }
        assert forall|others: Seq<Seq<TaskRef>>| #[trigger]
            is_sound(id, tasks, runtime, declared, limits, others) implies is_sound(
            id,
            tasks,
            runtime,
            declared,
            limits,
            lists,
        ) by {
            lemma_merged_alike(id, own, declared, others, lists);
            assert forall|i: int, dependency: TaskRef|
                0 <= i < lists.len() && #[trigger] lists[i].contains(dependency) implies names_some(
                dependency,
                id,
                count,
            ) by {
                assert(others[i].contains(dependency));
            }
            assert forall|i: int| 0 <= i < count implies (#[trigger] lists[i]).len() > 0 || (
            !tasks[i].0.tolerance.allows_failed && !tasks[i].0.tolerance.allows_skipped) by {
                if others[i].len() > 0 {
                    assert(others[i].contains(others[i][0]));
                    assert(lists[i].contains(others[i][0]));
                }
            }
            let rank = choose|rank: Map<int, int>| #[trigger] is_order(id, others, rank);
            assert forall|i: int, dependency: TaskRef, j: int|
                0 <= i < lists.len() && #[trigger] lists[i].contains(dependency)
                    && #[trigger] names(dependency, id, j) implies rank[j] < rank[i] by {
                assert(others[i].contains(dependency));
            }
            assert(is_order(id, lists, rank));
        }
        if idle_tolerance_refusal(job, merged) is Some {
            assert forall|others: Seq<Seq<TaskRef>>| !#[trigger] is_sound(
                id,
                tasks,
                runtime,
                declared,
                limits,
                others,
            ) by {
                if is_sound(id, tasks, runtime, declared, limits, others) {
                    assert(is_sound(id, tasks, runtime, declared, limits, lists));
                    assert forall|i: int| 0 <= i < count implies !(
                    #[trigger] merged[i]).tolerates_nothing() by {
                        assert(lists[i].len() > 0 || (!tasks[i].0.tolerance.allows_failed
                            && !tasks[i].0.tolerance.allows_skipped));
                    }
                }
            }
        } else {
            assert forall|i: int| 0 <= i < count implies (#[trigger] lists[i]).len() > 0 || (
            !tasks[i].0.tolerance.allows_failed && !tasks[i].0.tolerance.allows_skipped) by {
                assert(!merged[i].tolerates_nothing());
            }
        }
    }
}

/// Lists merged of the same hold the same dependencies.
proof fn lemma_merged_alike(
    id: JobDefinitionId,
    own: Seq<Seq<TaskRef>>,
    declared: Seq<(TaskRef, Seq<TaskRef>)>,
    some: Seq<Seq<TaskRef>>,
    others: Seq<Seq<TaskRef>>,
)
    requires
        are_merged(id, own, declared, some),
        are_merged(id, own, declared, others),
    ensures
        some.len() == others.len(),
        forall|i: int, dependency: TaskRef|
            #![trigger some[i].contains(dependency)]
            #![trigger others[i].contains(dependency)]
            0 <= i < some.len() ==> (some[i].contains(dependency) <==> others[i].contains(
                dependency,
            )),
{
    assert forall|i: int, dependency: TaskRef|
        #![trigger some[i].contains(dependency)]
        #![trigger others[i].contains(dependency)]
        0 <= i < some.len() implies (some[i].contains(dependency) <==> others[i].contains(
        dependency,
    )) by {}
}

/// A description is accepted exactly where it is sound, and becomes the job it describes: its tasks with
/// everything they wait for, the executors it names and no others, iterations without a cap or an
/// interval, of which a hundred are kept.
pub proof fn law_description_is_accepted_exactly_when_sound(
    id: JobDefinitionId,
    code: JobCode,
    initial: Vec<(TaskDefinition, ExecutorId)>,
    runtime: Vec<(TaskCode, ExecutorId)>,
    declared: Vec<(TaskRef, Vec<TaskRef>)>,
    limits: TaskLimits,
    built: Result<JobDefinition, Error>,
)
    requires
        call_ensures(JobDefinition::new, (id, code, initial, runtime, declared, limits), built),
    ensures
        ({
            let tasks = described_tasks(initial@);
            let executors = described_executors(runtime@);
            let waits = described_dependencies(declared@);
            &&& built is Ok <==> exists|lists: Seq<Seq<TaskRef>>| #[trigger]
                is_sound(id, tasks, executors, waits, limits, lists)
            &&& built matches Ok(job) ==> {
                &&& is_sound(id, tasks, executors, waits, limits, lists_of(job@.initial_tasks))
                &&& are_same_but_for_dependencies(definitions_of(tasks), job@.initial_tasks)
                &&& is_bound(job@.task_executors, initial_bindings(tasks) + executors)
                &&& job@.code == code@
                &&& job@.max_iterations is None
                &&& job@.iteration_interval is None
                &&& job@.task_limits == limits
                &&& job@.iteration_retention == 100
            }
        }),
{
    let tasks = described_tasks(initial@);
    let executors = described_executors(runtime@);
    let waits = described_dependencies(declared@);
    lemma_description(id, code@, tasks, executors, waits, limits);
    if built is Ok {
        let (bound, lists) = description(id, code@, tasks, executors, waits, limits)->Ok_0;
        assert(lists_of(built->Ok_0@.initial_tasks) =~= lists);
    }
}

/// Descriptions are read as they are given, entry by entry.
pub proof fn law_descriptions_are_read_as_given(
    initial: Seq<(TaskDefinition, ExecutorId)>,
    runtime: Seq<(TaskCode, ExecutorId)>,
    declared: Seq<(TaskRef, Vec<TaskRef>)>,
    tasks: Seq<TaskDefinition>,
    i: int,
)
    ensures
        described_tasks(initial).len() == initial.len(),
        definitions_of(described_tasks(initial)).len() == initial.len(),
        described_executors(runtime).len() == runtime.len(),
        described_dependencies(declared).len() == declared.len(),
        task_views(tasks).len() == tasks.len(),
        0 <= i < initial.len() ==> described_tasks(initial)[i].0 == initial[i].0@
            && described_tasks(initial)[i].1 == initial[i].1 && definitions_of(
            described_tasks(initial),
        )[i] == initial[i].0@,
        0 <= i < runtime.len() ==> described_executors(runtime)[i].0 == runtime[i].0@
            && described_executors(runtime)[i].1 == runtime[i].1,
        0 <= i < declared.len() ==> described_dependencies(declared)[i].0 == declared[i].0
            && described_dependencies(declared)[i].1 == declared[i].1@,
        0 <= i < tasks.len() ==> task_views(tasks)[i] == tasks[i]@,
{
}

/// Whether the jobs differ, if at all, in how they repeat.
pub open spec fn are_same_but_for_repetition(
    some: JobDefinitionView,
    other: JobDefinitionView,
) -> bool {
    &&& some.code == other.code
    &&& some.initial_tasks == other.initial_tasks
    &&& some.task_executors == other.task_executors
    &&& some.task_limits == other.task_limits
}

/// Iterations are capped at one at least, kept five at least, and spaced by a positive interval that can
/// be counted; each setting is taken alone and read back.
pub proof fn law_repetition_is_checked(
    job: JobDefinition,
    count: u64,
    interval: Duration,
    set: Result<JobDefinition, Error>,
)
    ensures
        call_ensures(JobDefinition::with_max_iterations, (job, count), set) ==> {
            &&& set is Ok <==> count >= 1
            &&& set matches Ok(changed) ==> changed@.max_iterations == Some(count)
                && changed@.iteration_interval == job@.iteration_interval
                && changed@.iteration_retention == job@.iteration_retention
                && are_same_but_for_repetition(job@, changed@)
        },
        call_ensures(JobDefinition::with_iteration_retention, (job, count), set) ==> {
            &&& set is Ok <==> count >= 5
            &&& set matches Ok(changed) ==> changed@.iteration_retention == count
                && changed@.iteration_interval == job@.iteration_interval && changed@.max_iterations
                == job@.max_iterations && are_same_but_for_repetition(job@, changed@)
        },
        call_ensures(JobDefinition::with_iteration_interval, (job, interval), set) ==> {
            &&& set is Ok <==> interval@ != 0 && is_delta(interval@)
            &&& set matches Ok(changed) ==> changed@.iteration_interval == Some(interval@)
                && changed@.max_iterations == job@.max_iterations && changed@.iteration_retention
                == job@.iteration_retention && are_same_but_for_repetition(job@, changed@)
        },
{
}

/// What a job holds is read as it is.
pub proof fn law_definition_is_read_as_it_is(
    job: &JobDefinition,
    code: &JobCode,
    tasks: &Vec<TaskDefinition>,
    executors: &TaskExecutors,
    cap: Option<u64>,
    interval: Option<Duration>,
    limits: TaskLimits,
    iter_num: u64,
    boundary: Option<u64>,
    copy: JobDefinition,
)
    ensures
        call_ensures(JobDefinition::code, (job,), code) ==> code@ == job@.code,
        call_ensures(JobDefinition::initial_tasks, (job,), tasks) ==> task_views(tasks@)
            == job@.initial_tasks,
        call_ensures(JobDefinition::task_executors, (job,), executors) ==> executors@
            == job@.task_executors,
        call_ensures(JobDefinition::max_iterations, (job,), cap) ==> cap == job@.max_iterations,
        call_ensures(JobDefinition::iteration_interval, (job,), interval) ==> {
            &&& interval is Some <==> job@.iteration_interval is Some
            &&& interval is Some ==> interval->Some_0@ == job@.iteration_interval->Some_0
        },
        call_ensures(JobDefinition::task_limits, (job,), limits) ==> limits == job@.task_limits,
        call_ensures(JobDefinition::calculate_retention_boundary, (job, iter_num), boundary) ==> {
            &&& boundary is Some <==> iter_num > job@.iteration_retention
            &&& boundary matches Some(last) ==> last + job@.iteration_retention == iter_num
        },
        call_ensures(JobDefinition::clone, (job,), copy) ==> copy@ == job@,
        call_ensures(TaskLimits::default, (), limits) ==> limits.max_input_bytes == 10 * 1024 * 1024
            && limits.max_output_bytes == 10 * 1024 * 1024,
{
}

// Registries

/// Whether the jobs have codes, each its own.
pub open spec fn are_told_apart(jobs: Seq<JobDefinitionView>) -> bool {
    &&& forall|i: int| 0 <= i < jobs.len() ==> (#[trigger] jobs[i]).code.len() > 0
    &&& forall|i: int, j: int|
        0 <= i < j < jobs.len() ==> (#[trigger] jobs[i]).code != (#[trigger] jobs[j]).code
}

/// Whether exactly these jobs are registered, each under its code.
pub open spec fn are_registered(
    jobs: Seq<JobDefinitionView>,
    map: Map<Seq<char>, JobDefinitionView>,
) -> bool {
    &&& forall|i: int|
        0 <= i < jobs.len() ==> map.contains_key((#[trigger] jobs[i]).code) && map[jobs[i].code]
            == jobs[i]
    &&& forall|code: Seq<char>| #[trigger]
        map.contains_key(code) ==> exists|i: int|
            0 <= i < jobs.len() && (#[trigger] jobs[i]).code == code
}

proof fn lemma_registered(jobs: Seq<JobDefinitionView>)
    ensures
        registered(jobs) is Ok <==> are_told_apart(jobs),
        registered(jobs) matches Ok(map) ==> are_registered(jobs, map),
    decreases jobs.len(),
{
    if jobs.len() > 0 {
        let rest = jobs.drop_last();
        let n = rest.len() as int;
        let last = jobs.last();
        lemma_registered(rest);
        assert forall|i: int| 0 <= i < n implies #[trigger] rest[i] == jobs[i] by {}
        assert(jobs[n] == last);
        if are_told_apart(jobs) {
            assert forall|i: int| 0 <= i < n implies (#[trigger] rest[i]).code.len() > 0 by {
                assert(jobs[i].code.len() > 0);
            }
            assert forall|i: int, j: int| 0 <= i < j < n implies (#[trigger] rest[i]).code != (
            #[trigger] rest[j]).code by {
                assert(jobs[i].code != jobs[j].code);
            }
            assert(are_told_apart(rest));
            let earlier = registered(rest)->Ok_0;
            if earlier.contains_key(last.code) {
                let i = choose|i: int| 0 <= i < n && (#[trigger] rest[i]).code == last.code;
                assert(jobs[i].code == jobs[n].code);
            }
            assert(last.code.len() > 0);
        }
        if registered(jobs) is Ok {
            let earlier = registered(rest)->Ok_0;
            let map = registered(jobs)->Ok_0;
            assert forall|i: int| 0 <= i < jobs.len() implies map.contains_key(
                (#[trigger] jobs[i]).code,
            ) && map[jobs[i].code] == jobs[i] by {
                if i < n {
                    assert(earlier.contains_key(rest[i].code) && earlier[rest[i].code] == rest[i]);
                }
            }
            assert forall|code: Seq<char>| #[trigger] map.contains_key(code) implies exists|i: int|
                0 <= i < jobs.len() && (#[trigger] jobs[i]).code == code by {
                if code == last.code {
                    assert(jobs[n].code == code);
                } else {
                    let i = choose|i: int| 0 <= i < n && (#[trigger] rest[i]).code == code;
                    assert(jobs[i].code == code);
                }
            }
            assert forall|i: int, j: int| 0 <= i < j < jobs.len() implies (#[trigger] jobs[i]).code
                != (#[trigger] jobs[j]).code by {
                if j < n {
                    assert(rest[i].code != rest[j].code);
                } else {
                    assert(earlier.contains_key(rest[i].code));
                }
            }
            assert forall|i: int| 0 <= i < jobs.len() implies (#[trigger] jobs[i]).code.len() > 0 by {
                if i < n {
                    assert(rest[i].code.len() > 0);
                }
            }
        }
    }
}

/// A registry is built exactly where there are jobs, told apart by codes that are not empty; it holds
/// exactly them, in their order.
pub proof fn law_registry_holds_the_jobs(jobs: Vec<JobDefinition>, built: Result<JobRegistry, Error>)
    requires
        call_ensures(JobRegistry::new, (jobs,), built),
    ensures
        ({
            let views = job_views(jobs@);
            &&& built is Ok <==> jobs@.len() > 0 && are_told_apart(views)
            &&& built matches Ok(registry) ==> {
                &&& are_registered(views, registry@)
                &&& registry.codes().len() == jobs@.len()
                &&& forall|i: int|
                    0 <= i < jobs@.len() ==> #[trigger] registry.codes()[i] == views[i].code
            }
        }),
{
    lemma_registered(job_views(jobs@));
}

/// Jobs are read into a registry as they are given.
pub proof fn law_jobs_are_read_as_given(jobs: Seq<JobDefinition>, i: int)
    ensures
        job_views(jobs).len() == jobs.len(),
        0 <= i < jobs.len() ==> job_views(jobs)[i] == jobs[i]@,
{
}

/// What a registry holds is found by its code, and nothing else is.
pub proof fn law_registry_is_read_as_it_is(
    registry: &JobRegistry,
    code: &JobCode,
    task: &TaskCode,
    job: Result<JobDefinition, Error>,
    executor: Result<ExecutorId, Error>,
    codes: Vec<JobCode>,
    count: usize,
    iter_num: u64,
    boundary: Option<u64>,
    limit: Result<u64, Error>,
)
    ensures
        call_ensures(JobRegistry::get_job, (registry, code), job) ==> {
            &&& job is Ok <==> registry@.contains_key(code@)
            &&& job matches Ok(found) ==> found@ == registry@[code@]
        },
        call_ensures(JobRegistry::get_task_executor, (registry, code, task), executor) ==> {
            &&& executor is Ok <==> registry@.contains_key(code@)
                && registry@[code@].task_executors.contains_key(task@)
            &&& executor matches Ok(found) ==> found == registry@[code@].task_executors[task@]
        },
        call_ensures(JobRegistry::list_jobs, (registry,), codes) ==> codes@.map_values(
            |code: JobCode| code@,
        ) == registry.codes(),
        call_ensures(JobRegistry::jobs_count, (registry,), count) ==> count
            == registry.codes().len(),
        call_ensures(
            JobRegistry::calculate_retention_boundary,
            (registry, code, iter_num),
            boundary,
        ) ==> {
            &&& boundary is Some <==> registry@.contains_key(code@) && iter_num
                > registry@[code@].iteration_retention
            &&& boundary matches Some(last) ==> last + registry@[code@].iteration_retention
                == iter_num
        },
        call_ensures(JobRegistry::completing_iteration, (registry, code), limit) ==> {
            &&& limit is Ok <==> registry@.contains_key(code@)
                && registry@[code@].max_iterations is Some
            &&& limit matches Ok(last) ==> registry@[code@].max_iterations == Some(last)
        },
{
}

// Builders

/// Whether the builder's settings can be met.
pub open spec fn can_repeat(builder: JobBuilderView) -> bool {
    &&& builder.max_iterations matches Some(cap) ==> cap >= 1
    &&& builder.iteration_retention matches Some(kept) ==> kept >= 5
    &&& builder.iteration_interval matches Some(interval) ==> interval != 0 && is_delta(interval)
}

/// Whether these are the limits the builder names, or ten mebibytes each where it names none.
pub open spec fn are_limits(builder: JobBuilderView, limits: TaskLimits) -> bool {
    &&& builder.task_limits matches Some(named) ==> limits == named
    &&& builder.task_limits is None ==> limits.max_input_bytes == 10 * 1024 * 1024
        && limits.max_output_bytes == 10 * 1024 * 1024
}

/// Whether `job` is what the builder describes.
pub open spec fn is_described(builder: JobBuilderView, job: JobDefinitionView) -> bool {
    &&& is_sound(
        builder.id,
        builder.initial_tasks,
        builder.runtime_executors,
        builder.dependencies,
        job.task_limits,
        lists_of(job.initial_tasks),
    )
    &&& can_repeat(builder)
    &&& job.code == builder.code
    &&& are_limits(builder, job.task_limits)
    &&& are_same_but_for_dependencies(definitions_of(builder.initial_tasks), job.initial_tasks)
    &&& is_bound(
        job.task_executors,
        initial_bindings(builder.initial_tasks) + builder.runtime_executors,
    )
    &&& job.max_iterations == builder.max_iterations
    &&& job.iteration_interval == builder.iteration_interval
    &&& builder.iteration_retention matches Some(kept) ==> job.iteration_retention == kept
    &&& builder.iteration_retention is None ==> job.iteration_retention == 100
}

/// Whether the builder describes a job at all.
pub open spec fn can_be_built(builder: JobBuilderView) -> bool {
    can_repeat(builder) && exists|limits: TaskLimits, lists: Seq<Seq<TaskRef>>|
        are_limits(builder, limits) && #[trigger] is_sound(
            builder.id,
            builder.initial_tasks,
            builder.runtime_executors,
            builder.dependencies,
            limits,
            lists,
        )
}

proof fn lemma_builds(builder: JobBuilderView, built: Result<JobDefinition, Error>)
    requires
        builds(builder, built),
    ensures
        built is Ok <==> can_be_built(builder),
        built matches Ok(job) ==> is_described(builder, job@) && job.well_formed(),
{
    lemma_description(
        builder.id,
        builder.code,
        builder.initial_tasks,
        builder.runtime_executors,
        builder.dependencies,
        builder.limits(),
    );
    assert forall|limits: TaskLimits| #[trigger] are_limits(builder, limits) implies limits
        == builder.limits() by {}
    assert(are_limits(builder, builder.limits()));
    if built is Ok {
        let (bound, lists) = description(
            builder.id,
            builder.code,
            builder.initial_tasks,
            builder.runtime_executors,
            builder.dependencies,
            builder.limits(),
        )->Ok_0;
        assert(lists_of(built->Ok_0@.initial_tasks) =~= lists);
        assert(is_sound(
            builder.id,
            builder.initial_tasks,
            builder.runtime_executors,
            builder.dependencies,
            builder.limits(),
            lists,
        ));
    }
}

/// A builder builds exactly where what it describes is sound and can repeat as it says, and builds that.
pub proof fn law_builder_builds_what_it_describes(
    builder: JobBuilder,
    built: Result<JobDefinition, Error>,
)
    requires
        call_ensures(JobBuilder::build_definition, (builder,), built),
    ensures
        built is Ok <==> can_be_built(builder@),
        built matches Ok(job) ==> is_described(builder@, job@),
{
    lemma_builds(builder@, built);
}

/// Whether the builders differ, if at all, in how the job repeats and in its limits.
pub open spec fn have_same_tasks(some: JobBuilderView, other: JobBuilderView) -> bool {
    &&& some.id == other.id
    &&& some.code == other.code
    &&& some.initial_tasks == other.initial_tasks
    &&& some.runtime_executors == other.runtime_executors
    &&& some.dependencies == other.dependencies
}

/// A setting replaces what was set of its kind, and nothing else.
pub proof fn law_settings_replace_their_kind(
    builder: &mut JobBuilder,
    this: &mut JobBuilder,
    interval: Duration,
    count: u64,
    limits: TaskLimits,
)
    ensures
        ({
            let before = old(builder)@;
            let after = old(this)@;
            let spaced = call_ensures(JobBuilder::every, (builder, interval), this);
            let capped = call_ensures(JobBuilder::max_iterations, (builder, count), this);
            let kept = call_ensures(JobBuilder::keep_iterations, (builder, count), this);
            let limited = call_ensures(JobBuilder::task_limits, (builder, limits), this);
            &&& spaced || capped || kept || limited ==> have_same_tasks(before, after)
                && *final(builder) == *final(this)
            &&& spaced ==> after.iteration_interval == Some(interval@) && after.max_iterations
                == before.max_iterations && after.iteration_retention == before.iteration_retention
                && after.task_limits == before.task_limits
            &&& capped ==> after.max_iterations == Some(count) && after.iteration_interval
                == before.iteration_interval && after.iteration_retention
                == before.iteration_retention && after.task_limits == before.task_limits
            &&& kept ==> after.iteration_retention == Some(count) && after.iteration_interval
                == before.iteration_interval && after.max_iterations == before.max_iterations
                && after.task_limits == before.task_limits
            &&& limited ==> after.task_limits == Some(limits) && after.iteration_interval
                == before.iteration_interval && after.max_iterations == before.max_iterations
                && after.iteration_retention == before.iteration_retention
        }),
{
}

/// Whether the builders differ, if at all, in their tasks and what belongs to them.
pub open spec fn have_same_settings(some: JobBuilderView, other: JobBuilderView) -> bool {
    &&& some.id == other.id
    &&& some.code == other.code
    &&& some.iteration_interval == other.iteration_interval
    &&& some.max_iterations == other.max_iterations
    &&& some.iteration_retention == other.iteration_retention
    &&& some.task_limits == other.task_limits
}

/// A task is added behind the earlier ones, and the reference handed out names it.
pub proof fn law_reference_names_the_added_task(
    builder: &mut JobBuilder,
    definition: TaskDefinition,
    executor: ExecutorId,
    reference: TaskRef,
)
    requires
        call_ensures(JobBuilder::add_task, (builder, definition, executor), reference),
        old(builder)@.initial_tasks.len() <= usize::MAX,
    ensures
        ({
            let before = old(builder)@;
            let after = final(builder)@;
            let n = before.initial_tasks.len() as int;
            &&& names(reference, before.id, n)
            &&& after.initial_tasks.len() == n + 1
            &&& after.initial_tasks[n] == (definition@, executor)
            &&& forall|i: int|
                0 <= i < n ==> #[trigger] after.initial_tasks[i] == before.initial_tasks[i]
            &&& have_same_settings(before, after)
            &&& after.runtime_executors == before.runtime_executors
            &&& after.dependencies == before.dependencies
        }),
{
}

/// Executors and dependencies are added behind the earlier ones; a chain makes each of its tasks wait for
/// the one before it.
pub proof fn law_declarations_are_added(
    builder: &mut JobBuilder,
    this: &mut JobBuilder,
    code: TaskCode,
    executor: ExecutorId,
    task: TaskRef,
    dependencies: &[TaskRef],
)
    ensures
        ({
            let before = old(builder)@;
            let after = old(this)@;
            let bound = call_ensures(
                JobBuilder::add_task_executor,
                (builder, code, executor),
                this,
            );
            let waits = call_ensures(JobBuilder::depends_on, (builder, task, dependencies), this);
            let chains = call_ensures(JobBuilder::chain, (builder, dependencies), this);
            &&& bound || waits || chains ==> have_same_settings(before, after)
                && after.initial_tasks == before.initial_tasks && *final(builder) == *final(this)
            &&& bound ==> after.dependencies == before.dependencies && after.runtime_executors
                == before.runtime_executors + seq![(code@, executor)]
            &&& waits ==> after.runtime_executors == before.runtime_executors && after.dependencies
                == before.dependencies + seq![(task, dependencies@)]
            &&& chains ==> after.runtime_executors == before.runtime_executors && is_chain(
                before.dependencies,
                after.dependencies,
                dependencies@,
            )
        }),
{
    let before = old(builder)@;
    let after = old(this)@;
    if call_ensures(JobBuilder::add_task_executor, (builder, code, executor), this) {
        assert(before.runtime_executors.push((code@, executor)) =~= before.runtime_executors + seq![
            (code@, executor),
        ]);
    }
    if call_ensures(JobBuilder::depends_on, (builder, task, dependencies), this) {
        assert(before.dependencies.push((task, dependencies@)) =~= before.dependencies + seq![
            (task, dependencies@),
        ]);
    }
    if call_ensures(JobBuilder::chain, (builder, dependencies), this) {
        let tasks = dependencies@;
        let n = before.dependencies.len() as int;
        assert(after.dependencies == before.dependencies + chained(tasks));
        assert forall|i: int| 0 <= i < tasks.len() - 1 implies {
            let entry = #[trigger] after.dependencies[n + i];
            entry.0 == tasks[i + 1] && entry.1 == seq![tasks[i]]
        } by {
            assert(after.dependencies[n + i] == chained(tasks)[i]);
        }
        assert(after.dependencies.take(n) =~= before.dependencies);
    }
}

/// Whether `after` adds to `before` that each of the tasks waits for the one before it.
pub open spec fn is_chain(
    before: Seq<(TaskRef, Seq<TaskRef>)>,
    after: Seq<(TaskRef, Seq<TaskRef>)>,
    tasks: Seq<TaskRef>,
) -> bool {
    let n = before.len() as int;
    &&& after.len() == n + (if tasks.len() > 0 {
        tasks.len() - 1
    } else {
        0
    })
    &&& after.take(n) == before
    &&& forall|i: int|
        0 <= i < tasks.len() - 1 ==> {
            let entry = #[trigger] after[n + i];
            entry.0 == tasks[i + 1] && entry.1 == seq![tasks[i]]
        }
}

/// A builder starts out with nothing but its id and its code.
pub proof fn law_builder_starts_out_empty(id: JobDefinitionId, code: JobCode, builder: JobBuilder)
    requires
        call_ensures(JobBuilder::new, (id, code), builder),
    ensures
        builder@.id == id,
        builder@.code == code@,
        builder@.initial_tasks.len() == 0,
        builder@.runtime_executors.len() == 0,
        builder@.dependencies.len() == 0,
        builder@.iteration_interval is None,
        builder@.max_iterations is None,
        builder@.iteration_retention is None,
        builder@.task_limits is None,
{
}

/// Whether the builders have codes, each its own.
pub open spec fn have_own_codes(jobs: Seq<JobBuilder>) -> bool {
    &&& forall|i: int| 0 <= i < jobs.len() ==> (#[trigger] jobs[i])@.code.len() > 0
    &&& forall|i: int, j: int|
        0 <= i < j < jobs.len() ==> (#[trigger] jobs[i])@.code != (#[trigger] jobs[j])@.code
}

/// A registry is built of builders exactly where there are some, each can be built and each has its own
/// code; it holds exactly what they describe, in their order.
pub proof fn law_registry_is_built_of_its_builders(
    jobs: Vec<JobBuilder>,
    built: Result<JobRegistry, Error>,
)
    requires
        call_ensures(build_registry, (jobs,), built),
    ensures
        built is Ok <==> is_complete(jobs@),
        built matches Ok(registry) ==> holds_described(jobs@, &registry),
{
    lemma_builds_registry(jobs@, built);
}

/// Whether a registry can be built of the builders.
pub open spec fn is_complete(jobs: Seq<JobBuilder>) -> bool {
    &&& jobs.len() > 0
    &&& have_own_codes(jobs)
    &&& forall|i: int| 0 <= i < jobs.len() ==> can_be_built((#[trigger] jobs[i])@)
}

/// Whether the registry holds exactly what the builders describe.
pub open spec fn holds_described(jobs: Seq<JobBuilder>, registry: &JobRegistry) -> bool {
    &&& registry.codes().len() == jobs.len()
    &&& forall|i: int|
        0 <= i < jobs.len() ==> registry.codes()[i] == (#[trigger] jobs[i])@.code
            && registry@.contains_key(jobs[i]@.code) && is_described(
            jobs[i]@,
            registry@[jobs[i]@.code],
        )
    &&& forall|code: Seq<char>| #[trigger]
        registry@.contains_key(code) ==> exists|i: int|
            0 <= i < jobs.len() && (#[trigger] jobs[i])@.code == code
}

proof fn lemma_all_built(jobs: Seq<JobBuilder>, definitions: Seq<JobDefinition>, count: int)
    requires
        0 <= count <= jobs.len(),
        builds_all(jobs, definitions, count),
    ensures
        forall|i: int|
            0 <= i < count ==> can_be_built((#[trigger] jobs[i])@) && is_described(
                jobs[i]@,
                job_views(definitions)[i],
            ),
{
    assert forall|i: int| 0 <= i < count implies can_be_built((#[trigger] jobs[i])@)
        && is_described(jobs[i]@, job_views(definitions)[i]) by {
        assert(builds(jobs[i]@, Ok(definitions[i])));
        lemma_builds(jobs[i]@, Ok(definitions[i]));
        assert(job_views(definitions)[i] == definitions[i]@);
    }
}

proof fn lemma_builds_registry(jobs: Seq<JobBuilder>, built: Result<JobRegistry, Error>)
    requires
        builds_registry(jobs, built),
    ensures
        built is Ok <==> is_complete(jobs),
        built matches Ok(registry) ==> holds_described(jobs, &registry),
{
    if jobs.len() > 0 {
        match built {
            Ok(registry) => {
                let definitions = choose|definitions: Seq<JobDefinition>|
                    #[trigger] builds_all(jobs, definitions, jobs.len() as int) && registered(
                        job_views(definitions),
                    ) == Ok::<Map<Seq<char>, JobDefinitionView>, Seq<char>>(registry@)
                        && registry.codes() == job_codes(job_views(definitions));
                let views = job_views(definitions);
                lemma_all_built(jobs, definitions, jobs.len() as int);
                lemma_registered(views);
                lemma_codes_match(jobs, views);
                assert forall|i: int| 0 <= i < jobs.len() implies registry.codes()[i] == (
                #[trigger] jobs[i])@.code && registry@.contains_key(jobs[i]@.code) && is_described(
                    jobs[i]@,
                    registry@[jobs[i]@.code],
                ) by {
                    assert(views[i].code == jobs[i]@.code);
                }
                assert forall|code: Seq<char>| #[trigger]
                    registry@.contains_key(code) implies exists|i: int|
                    0 <= i < jobs.len() && (#[trigger] jobs[i])@.code == code by {
                    let i = choose|i: int| 0 <= i < views.len() && (#[trigger] views[i]).code == code;
                    assert(jobs[i]@.code == code);
                }
            },
            Err(e) => {
                let (definitions, count) = choose|definitions: Seq<JobDefinition>, count: int|
                    0 <= count <= jobs.len() && #[trigger] builds_all(jobs, definitions, count)
                        && if count < jobs.len() {
                        builds(jobs[count]@, Err(e))
                    } else {
                        registered(job_views(definitions)) matches Err(message) && e@
                            == ErrorView::Other(message)
                    };
                lemma_all_built(jobs, definitions, count);
                if count < jobs.len() {
                    lemma_builds(jobs[count]@, Err(e));
                } else {
                    lemma_registered(job_views(definitions));
                    lemma_codes_match(jobs, job_views(definitions));
                }
            },
        }
    }
}

/// Jobs are told apart as their builders are.
proof fn lemma_codes_match(jobs: Seq<JobBuilder>, views: Seq<JobDefinitionView>)
    requires
        views.len() == jobs.len(),
        forall|i: int| 0 <= i < jobs.len() ==> is_described((#[trigger] jobs[i])@, views[i]),
    ensures
        are_told_apart(views) <==> have_own_codes(jobs),
        forall|i: int| 0 <= i < jobs.len() ==> (#[trigger] views[i]).code == jobs[i]@.code,
{
    assert forall|i: int| 0 <= i < jobs.len() implies (#[trigger] views[i]).code == jobs[i]@.code by {
        assert(is_described(jobs[i]@, views[i]));
    }
    if are_told_apart(views) {
        assert forall|i: int| 0 <= i < jobs.len() implies (#[trigger] jobs[i])@.code.len() > 0 by {
            assert(views[i].code.len() > 0);
        }
        assert forall|i: int, j: int| 0 <= i < j < jobs.len() implies (#[trigger] jobs[i])@.code
            != (#[trigger] jobs[j])@.code by {
            assert(views[i].code != views[j].code);
        }
    }
    if have_own_codes(jobs) {
        assert forall|i: int| 0 <= i < views.len() implies (#[trigger] views[i]).code.len() > 0 by {
            assert(jobs[i]@.code.len() > 0);
        }
        assert forall|i: int, j: int| 0 <= i < j < views.len() implies (#[trigger] views[i]).code
            != (#[trigger] views[j]).code by {
            assert(jobs[i]@.code != jobs[j]@.code);
        }
    }
}

// Pools

/// Whether a worker can poll by the named intervals: the base is positive and the ceiling no shorter than
/// it, neither exceeding a year.
pub open spec fn can_be_polled(interval: Option<Duration>, ceiling: Option<Duration>) -> bool {
    &&& interval matches Some(interval) ==> interval@ != 0 && interval@ <= a_year()
    &&& ceiling matches Some(ceiling) ==> ceiling@ <= a_year() && (match interval {
        Some(interval) => interval@,
        None => 200 * a_millisecond(),
    }) <= ceiling@
}

/// Whether a worker polls as named, and as usual where nothing is.
pub open spec fn polls_as_named(
    config: WorkerConfigView,
    interval: Option<Duration>,
    jitter: Option<Duration>,
    ceiling: Option<Duration>,
    retrier: Option<RetrierConfig>,
) -> bool {
    &&& interval matches Some(interval) ==> config.poll_interval == interval@
    &&& interval is None ==> config.poll_interval == 200 * a_millisecond()
    &&& jitter matches Some(jitter) ==> config.poll_jitter == jitter@
    &&& jitter is None ==> config.poll_jitter == 50 * a_millisecond()
    &&& ceiling matches Some(ceiling) ==> config.max_poll_interval == Some(ceiling@)
    &&& ceiling is None ==> config.max_poll_interval is None
    &&& retrier matches Some(retrier) ==> config.retrier_config == retrier@
    &&& retrier is None ==> is_patient(config.retrier_config)
}

/// Worker settings are accepted exactly where a worker can poll by them, and taken as named.
pub proof fn law_worker_polls_as_named(
    interval: Option<Duration>,
    jitter: Option<Duration>,
    ceiling: Option<Duration>,
    retrier: Option<RetrierConfig>,
    built: Result<WorkerConfig, Error>,
)
    requires
        call_ensures(build_worker_config, (interval, jitter, ceiling, retrier), built),
    ensures
        built is Ok <==> can_be_polled(interval, ceiling),
        built matches Ok(config) ==> polls_as_named(config@, interval, jitter, ceiling, retrier),
{
}

/// A draft is finished exactly where its settings can be met and it has a worker; the pool is what the
/// draft says.
pub proof fn law_pool_is_what_its_draft_says(
    draft: PoolDraft,
    pool: Result<(JobRegistry, JobsManagerConfig), Error>,
)
    requires
        call_ensures(PoolDraft::finish, (draft,), pool),
    ensures
        pool is Ok <==> can_be_polled(draft.poll_interval, draft.max_poll_interval)
            && draft.worker_count >= 1,
        pool matches Ok((registry, config)) ==> {
            &&& registry == draft.registry
            &&& config.worker_count == draft.worker_count
            &&& config.cleaner_config == draft.cleaner_config
            &&& polls_as_named(
                config.worker_config@,
                draft.poll_interval,
                draft.poll_jitter,
                draft.max_poll_interval,
                draft.retrier_config,
            )
        },
{
}

/// A pool is drafted exactly where its registry can be built and a backend was chosen: S3, cached unless
/// the cache was refused, or memory. Everything else is drafted as it was set.
pub proof fn law_draft_is_what_was_set(
    builder: JobsManagerBuilder,
    drafted: Result<PoolDraft, Error>,
)
    requires
        call_ensures(JobsManagerBuilder::build, (builder,), drafted),
    ensures
        drafted is Ok <==> is_complete(builder.jobs@) && builder.storage != StorageChoice::Unset,
        drafted matches Ok(draft) ==> {
            &&& holds_described(builder.jobs@, &draft.registry)
            &&& draft.backend == Backend::InMemory <==> builder.storage == StorageChoice::InMemory
            &&& builder.storage == StorageChoice::S3 ==> draft.backend == (Backend::S3 {
                cached: builder.cache_storage,
            })
            &&& draft.worker_count == builder.worker_count
            &&& draft.poll_interval == builder.poll_interval
            &&& draft.poll_jitter == builder.poll_jitter
            &&& draft.max_poll_interval == builder.max_poll_interval
            &&& draft.retrier_config == builder.retrier_config
            &&& draft.cleaner_config == builder.cleaner_config
        },
{
    let registry = choose|registry: Result<JobRegistry, Error>| #[trigger]
        builds_registry(builder.jobs@, registry) && match (registry, builder.backend()) {
            (Err(refusal), _) => drafted == Err::<PoolDraft, Error>(refusal),
            (Ok(_), None) => drafted matches Err(e) && e@ == ErrorView::Other(
                no_backend_text(),
            ),
            (Ok(registry), Some(backend)) => drafted == Ok::<PoolDraft, Error>(
                PoolDraft {
                    registry,
                    backend,
                    worker_count: builder.worker_count,
                    poll_interval: builder.poll_interval,
                    poll_jitter: builder.poll_jitter,
                    max_poll_interval: builder.max_poll_interval,
                    retrier_config: builder.retrier_config,
                    cleaner_config: builder.cleaner_config,
                },
            ),
        };
    lemma_builds_registry(builder.jobs@, registry);
}

/// A draft is refused for its backend where its registry can be built.
pub(crate) proof fn lemma_refused_draft(
    builder: JobsManagerBuilder,
    drafted: Result<PoolDraft, Error>,
)
    requires
        call_ensures(JobsManagerBuilder::build, (builder,), drafted),
        is_complete(builder.jobs@),
        drafted is Err,
    ensures
        drafted->Err_0@ == ErrorView::Other(no_backend_text()),
{
    let registry = choose|registry: Result<JobRegistry, Error>| #[trigger]
        builds_registry(builder.jobs@, registry) && match (registry, builder.backend()) {
            (Err(refusal), _) => drafted == Err::<PoolDraft, Error>(refusal),
            (Ok(_), None) => drafted matches Err(e) && e@ == ErrorView::Other(no_backend_text()),
            (Ok(_), Some(_)) => drafted is Ok,
        };
    lemma_builds_registry(builder.jobs@, registry);
}

/// Whether the builders differ, if at all, in this backend, its cache and the jobs.
pub open spec fn work_alike(some: JobsManagerBuilder, other: JobsManagerBuilder) -> bool {
    &&& some.worker_count == other.worker_count
    &&& some.poll_interval == other.poll_interval
    &&& some.poll_jitter == other.poll_jitter
    &&& some.max_poll_interval == other.max_poll_interval
    &&& some.retrier_config == other.retrier_config
    &&& some.cleaner_config == other.cleaner_config
}

/// Whether the builders differ, if at all, in how the pool works.
pub open spec fn hold_alike(some: JobsManagerBuilder, other: JobsManagerBuilder) -> bool {
    &&& some.storage == other.storage
    &&& some.cache_storage == other.cache_storage
    &&& some.jobs == other.jobs
}

/// A new pool builder has one worker, a brief cleanup, a cache, no backend and no job.
pub proof fn law_pool_builder_starts_out_bare(builder: JobsManagerBuilder)
    requires
        call_ensures(JobsManagerBuilder::new, (), builder) || call_ensures(
            JobsManagerBuilder::default,
            (),
            builder,
        ),
    ensures
        builder.storage == StorageChoice::Unset,
        builder.cache_storage,
        builder.jobs@.len() == 0,
        builder.worker_count == 1,
        builder.poll_interval is None && builder.poll_jitter is None
            && builder.max_poll_interval is None && builder.retrier_config is None,
        builder.cleaner_config.enabled && is_brief(builder.cleaner_config.retrier_config@),
{
}

/// A choice of backend, cache or job changes that alone; jobs are added behind the earlier ones.
pub proof fn law_pool_holds_what_was_chosen(
    builder: JobsManagerBuilder,
    job: JobBuilder,
    after: JobsManagerBuilder,
)
    ensures
        call_ensures(JobsManagerBuilder::s3, (builder,), after) ==> work_alike(builder, after)
            && after.jobs == builder.jobs && after.storage == StorageChoice::S3
            && after.cache_storage == builder.cache_storage,
        call_ensures(JobsManagerBuilder::in_memory, (builder,), after) ==> work_alike(builder, after)
            && after.jobs == builder.jobs && after.storage == StorageChoice::InMemory
            && after.cache_storage == builder.cache_storage,
        call_ensures(JobsManagerBuilder::no_cache, (builder,), after) ==> work_alike(builder, after)
            && after.jobs == builder.jobs && after.storage == builder.storage
            && !after.cache_storage,
        call_ensures(JobsManagerBuilder::job, (builder, job), after) ==> work_alike(builder, after)
            && after.storage == builder.storage && after.cache_storage == builder.cache_storage
            && after.jobs@ == builder.jobs@ + seq![job],
{
    if call_ensures(JobsManagerBuilder::job, (builder, job), after) {
        assert(builder.jobs@.push(job) =~= builder.jobs@ + seq![job]);
    }
}

/// A setting of how the pool works changes that alone.
pub proof fn law_pool_works_as_was_set(
    builder: JobsManagerBuilder,
    count: usize,
    span: Duration,
    retrier: RetrierConfig,
    cleaner: JobCleanerConfig,
    after: JobsManagerBuilder,
)
    ensures
        call_ensures(JobsManagerBuilder::workers, (builder, count), after) ==> hold_alike(
            builder,
            after,
        ) && after.worker_count == count && work_alike(
            JobsManagerBuilder { worker_count: count, ..builder },
            after,
        ),
        call_ensures(JobsManagerBuilder::poll_interval, (builder, span), after) ==> hold_alike(
            builder,
            after,
        ) && after.poll_interval == Some(span) && work_alike(
            JobsManagerBuilder { poll_interval: Some(span), ..builder },
            after,
        ),
        call_ensures(JobsManagerBuilder::poll_jitter, (builder, span), after) ==> hold_alike(
            builder,
            after,
        ) && after.poll_jitter == Some(span) && work_alike(
            JobsManagerBuilder { poll_jitter: Some(span), ..builder },
            after,
        ),
        call_ensures(JobsManagerBuilder::max_poll_interval, (builder, span), after) ==> hold_alike(
            builder,
            after,
        ) && after.max_poll_interval == Some(span) && work_alike(
            JobsManagerBuilder { max_poll_interval: Some(span), ..builder },
            after,
        ),
        call_ensures(JobsManagerBuilder::retrier, (builder, retrier), after) ==> hold_alike(
            builder,
            after,
        ) && after.retrier_config == Some(retrier) && work_alike(
            JobsManagerBuilder { retrier_config: Some(retrier), ..builder },
            after,
        ),
        call_ensures(JobsManagerBuilder::cleaner, (builder, cleaner), after) ==> hold_alike(
            builder,
            after,
        ) && after.cleaner_config == cleaner && work_alike(
            JobsManagerBuilder { cleaner_config: cleaner, ..builder },
            after,
        ),
        call_ensures(JobsManagerBuilder::no_cleanup, (builder,), after) ==> hold_alike(
            builder,
            after,
        ) && !after.cleaner_config.enabled && after.cleaner_config.retrier_config
            == builder.cleaner_config.retrier_config && work_alike(
            JobsManagerBuilder { cleaner_config: after.cleaner_config, ..builder },
            after,
        ),
{
}

} // verus!
