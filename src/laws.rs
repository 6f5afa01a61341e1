//! Properties that relate several operations of the task list.
use crate::todo::{
    all_wf, appended, index_check, numbered, numbered_with, reloaded, without_completed, Status,
    Task, TodoError,
};
use vstd::prelude::*;

verus! {

/// After appending a task with description `desc`, the listing holds the old
/// listing unchanged, followed by the new task at the highest position, with
/// that description and status `Todo`.
pub proof fn lemma_add_then_list(before: Seq<Task>, after: Seq<Task>, desc: Seq<char>)
    requires
        appended(before, after, desc),
    ensures
        numbered(after).len() == before.len() + 1,
        numbered(after).subrange(0, before.len() as int) == numbered(before),
        numbered(after).last().0 == after.len(),
        numbered(after).last().1.description@ == desc,
        numbered(after).last().1.status == Status::Todo,
{
    assert(numbered(after).subrange(0, before.len() as int) =~= numbered(before)) by {
        assert forall|i: int| 0 <= i < before.len() implies after[i] == before[i] by {
            assert(after.subrange(0, before.len() as int)[i] == after[i]);
        }
    }
}

/// Index 0 is always rejected as invalid, an index one past the last task is
/// reported as out of bounds with that index, and every index from 1 to the
/// number of tasks is accepted.
pub proof fn lemma_index_bounds(n: usize)
    requires
        n < usize::MAX,
    ensures
        index_check(0, n as int) == Err::<(), TodoError>(TodoError::InvalidIndex),
        index_check((n + 1) as usize, n as int) == Err::<(), TodoError>(
            TodoError::IndexOutOfBound((n + 1) as usize),
        ),
        forall|k: usize| 1 <= k <= n ==> #[trigger] index_check(k, n as int) is Ok,
{
}

/// Setting the status at position `k` changes that task's status only: its
/// description and every other task stay as they were.
pub proof fn lemma_update_changes_one(tasks: Seq<Task>, k: int, s: Status)
    requires
        1 <= k <= tasks.len(),
    ensures
        ({
            let after = tasks.update(
                k - 1,
                (Task { description: tasks[k - 1].description, status: s }),
            );
            &&& after.len() == tasks.len()
            &&& after[k - 1].status == s
            &&& after[k - 1].description == tasks[k - 1].description
            &&& forall|i: int| 0 <= i < tasks.len() && i != k - 1 ==> #[trigger] after[i] == tasks[i]
        }),
{
}

/// Removing the task at position `k` leaves one task fewer: the tasks before
/// it keep their positions and those after it move down by one.
pub proof fn lemma_remove_shifts(tasks: Seq<Task>, k: int)
    requires
        1 <= k <= tasks.len(),
    ensures
        tasks.remove(k - 1).len() == tasks.len() - 1,
        forall|i: int| 0 <= i < k - 1 ==> #[trigger] tasks.remove(k - 1)[i] == tasks[i],
        forall|i: int| k <= i < tasks.len() ==> #[trigger] tasks.remove(k - 1)[i - 1] == tasks[i],
{
}

/// Clearing completed tasks keeps exactly the tasks that are not completed,
/// in their order: none of what remains is completed, and a task that is not
/// completed is still there.
pub proof fn lemma_clear_keeps_open(tasks: Seq<Task>)
    ensures
        forall|i: int|
            0 <= i < without_completed(tasks).len() ==> #[trigger] without_completed(tasks)[i].status
                != Status::Completed,
        forall|i: int|
            0 <= i < tasks.len() && tasks[i].status != Status::Completed ==> without_completed(
                tasks,
            ).contains(#[trigger] tasks[i]),
        without_completed(tasks).len() <= tasks.len(),
{
    tasks.filter_lemma(|t: Task| t.status != Status::Completed);
}

/// A listing filtered by status holds only tasks of that status.
pub proof fn lemma_filter_matches(tasks: Seq<Task>, status: Status)
    ensures
        forall|i: int|
            0 <= i < numbered_with(tasks, status).len() ==> #[trigger] numbered_with(
                tasks,
                status,
            )[i].1.status == status,
{
    numbered(tasks).filter_lemma(|p: (int, Task)| p.1.status == status);
}

/// Tasks that are all well formed, as every list built by adding, updating
/// and removing tasks is, read back as exactly the same ordered tasks.
pub proof fn lemma_reload_round_trip(tasks: Seq<Task>)
    requires
        all_wf(tasks),
    ensures
        reloaded(tasks) == Some(tasks),
{
}

} // verus!
