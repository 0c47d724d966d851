use crate::store::Task;
use vstd::prelude::*;

verus! {

/// The ids of `ts`, in order.
pub open spec fn task_ids(ts: Seq<Task>) -> Seq<u64> {
    ts.map_values(|t: Task| t.id)
}

/// The task map after upserting each task of `ts` in turn, first to last.
pub open spec fn insert_all(tasks: Map<u64, Task>, ts: Seq<Task>) -> Map<u64, Task>
    decreases ts.len(),
{
    if ts.len() == 0 {
        tasks
    } else {
        insert_all(tasks, ts.drop_last()).insert(ts.last().id, ts.last())
    }
}

/// A task that was just inserted is what a lookup of its id finds.
pub proof fn insert_then_get(tasks: Map<u64, Task>, task: Task)
    ensures
        tasks.insert(task.id, task).contains_key(task.id),
        tasks.insert(task.id, task)[task.id] == task,
{
}

/// Inserting two tasks with one id leaves one record under that id, the
/// later one; the earlier insert leaves no trace.
pub proof fn upsert_keeps_latest(tasks: Map<u64, Task>, first: Task, second: Task)
    requires
        first.id == second.id,
    ensures
        tasks.insert(first.id, first).insert(second.id, second) == tasks.insert(second.id, second),
        tasks.insert(first.id, first).insert(second.id, second).dom() == tasks.dom().insert(second.id),
        tasks.insert(first.id, first).insert(second.id, second)[second.id] == second,
{
    assert(tasks.insert(first.id, first).insert(second.id, second) =~= tasks.insert(
        second.id,
        second,
    ));
}

/// After a delete nothing is found under the id; deleting an absent id
/// changes nothing, so the number of tasks stays the same.
pub proof fn delete_then_get(tasks: Map<u64, Task>, id: u64)
    ensures
        !tasks.remove(id).contains_key(id),
        !tasks.contains_key(id) ==> tasks.remove(id) == tasks,
        !tasks.contains_key(id) ==> tasks.remove(id).dom().len() == tasks.dom().len(),
{
    if !tasks.contains_key(id) {
        assert(tasks.remove(id) =~= tasks);
    }
}

/// Upserts one after another of tasks with distinct ids lose none of them:
/// each is found under its id, and the keys are the earlier keys and those ids.
pub proof fn inserts_are_kept(tasks: Map<u64, Task>, ts: Seq<Task>)
    requires
        task_ids(ts).no_duplicates(),
    ensures
        forall|i: int|
            0 <= i < ts.len() ==> insert_all(tasks, ts).contains_key(#[trigger] ts[i].id)
                && insert_all(tasks, ts)[ts[i].id] == ts[i],
        insert_all(tasks, ts).dom() == tasks.dom().union(task_ids(ts).to_set()),
    decreases ts.len(),
{
    if ts.len() > 0 {
        let init = ts.drop_last();
        let last = ts.last();
        assert(task_ids(init) =~= task_ids(ts).drop_last());
        assert(task_ids(init).no_duplicates()) by {
            assert forall|i: int, j: int|
                0 <= i < task_ids(init).len() && 0 <= j < task_ids(init).len() && i != j implies
                task_ids(init)[i] != task_ids(init)[j] by {
                assert(task_ids(init)[i] == task_ids(ts)[i]);
                assert(task_ids(init)[j] == task_ids(ts)[j]);
            }
        }
        inserts_are_kept(tasks, init);
        assert forall|i: int| 0 <= i < ts.len() implies insert_all(tasks, ts).contains_key(
            #[trigger] ts[i].id,
        ) && insert_all(tasks, ts)[ts[i].id] == ts[i] by {
            if i < ts.len() - 1 {
                assert(init[i] == ts[i]);
                assert(task_ids(ts)[i] != task_ids(ts)[ts.len() - 1]);
            }
        }
        assert(task_ids(ts) =~= task_ids(init).push(last.id));
        assert(task_ids(ts).to_set() =~= task_ids(init).to_set().insert(last.id)) by {
            task_ids(init).lemma_push_to_set_commute(last.id);
        }
        assert(insert_all(tasks, ts).dom() =~= tasks.dom().union(task_ids(ts).to_set()));
    } else {
        assert(insert_all(tasks, ts).dom() =~= tasks.dom().union(task_ids(ts).to_set()));
    }
}

/// Starting from an empty store, after upserts of tasks with distinct ids,
/// any listing of the kind `get_all` returns (one entry per key, covering
/// every stored task) holds as many tasks as were inserted, with the same ids.
pub proof fn listing_after_inserts(ts: Seq<Task>, listed: Seq<Task>)
    requires
        task_ids(ts).no_duplicates(),
        listed.len() == insert_all(Map::empty(), ts).dom().len(),
        listed.to_set() == insert_all(Map::empty(), ts).values(),
    ensures
        listed.len() == ts.len(),
        task_ids(listed).to_set() == task_ids(ts).to_set(),
{
    let m = insert_all(Map::empty(), ts);
    inserts_are_kept(Map::empty(), ts);
    assert(m.dom() =~= task_ids(ts).to_set());
    task_ids(ts).unique_seq_to_set();
    assert forall|x: u64| #[trigger] task_ids(listed).to_set().contains(x) implies task_ids(
        ts,
    ).to_set().contains(x) by {
        let j = choose|j: int| 0 <= j < task_ids(listed).len() && task_ids(listed)[j] == x;
        assert(listed.to_set().contains(listed[j]));
        let k = choose|k: u64| #[trigger] m.contains_key(k) && m[k] == listed[j];
        assert(task_ids(ts).to_set().contains(k));
        let i = choose|i: int| 0 <= i < task_ids(ts).len() && task_ids(ts)[i] == k;
        assert(ts[i].id == k);
        assert(m[k] == ts[i]);
    }
    assert forall|x: u64| #[trigger] task_ids(ts).to_set().contains(x) implies task_ids(
        listed,
    ).to_set().contains(x) by {
        let i = choose|i: int| 0 <= i < task_ids(ts).len() && task_ids(ts)[i] == x;
        assert(ts[i].id == x);
        assert(m.contains_key(x) && m[x] == ts[i]);
        assert(m.values().contains(ts[i]));
        assert(listed.to_set().contains(ts[i]));
        let j = choose|j: int| 0 <= j < listed.len() && listed[j] == ts[i];
        assert(task_ids(listed)[j] == x);
    }
    assert(task_ids(listed).to_set() =~= task_ids(ts).to_set());
}

} // verus!
