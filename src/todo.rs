//! Tasks, their status, and the ordered task list.
use crate::text::{lower_of, lowercase, text_equals, trim_of, trim_text};
use vstd::prelude::*;

verus! {

/// What can go wrong when working with a task list.
#[derive(Debug)]
pub enum TodoError {
    /// An index of 0: positions start at 1.
    InvalidIndex,
    /// A status text that matches none of the accepted forms; holds the text.
    InvalidStatus(String),
    /// An index past the last task; holds the index as given.
    IndexOutOfBound(usize),
    /// A description that is empty after trimming.
    EmptyDescription,
    /// Stored content that could not be read back or written as tasks.
    SerializationError(String),
    /// The underlying file could not be read or written.
    FileError(String),
}

/// Whether `e` reports the status text `text` as unrecognized.
pub open spec fn invalid_status_of(e: TodoError, text: Seq<char>) -> bool {
    match e {
        TodoError::InvalidStatus(t) => t@ == text,
        _ => false,
    }
}

/// The state of a task.
#[derive(Clone, Copy, Debug, PartialEq, Eq, Structural)]
pub enum Status {
    Todo,
    InProgress,
    Completed,
}

/// The status that an already lowercased text names, if any.
pub open spec fn status_alias(t: Seq<char>) -> Option<Status> {
    if t == "todo"@ || t == "to-do"@ {
        Some(Status::Todo)
    } else if t == "done"@ || t == "completed"@ {
        Some(Status::Completed)
    } else if t == "in-progress"@ || t == "inprogress"@ {
        Some(Status::InProgress)
    } else {
        None
    }
}

/// The canonical text of a status.
pub open spec fn status_label(s: Status) -> Seq<char> {
    match s {
        Status::Todo => "TODO"@,
        Status::InProgress => "IN-PROGRESS"@,
        Status::Completed => "DONE"@,
    }
}

impl Status {
    /// Parses a status from text, ignoring case.
    pub fn from_str(status_str: &str) -> (r: Result<Status, TodoError>)
        ensures
            match r {
                Ok(s) => status_alias(lower_of(status_str@)) == Some(s),
                Err(e) => status_alias(lower_of(status_str@)) is None
                    && invalid_status_of(e, status_str@),
            },
    {
        let lowered = lowercase(status_str);
        Status::from_lowercase(lowered.as_str(), status_str)
    }

    /// Maps lowercased status text to a status; `original` is the text as the
    /// user wrote it, reported back on failure.
    pub fn from_lowercase(lowered: &str, original: &str) -> (r: Result<Status, TodoError>)
        ensures
            match r {
                Ok(s) => status_alias(lowered@) == Some(s),
                Err(e) => status_alias(lowered@) is None
                    && invalid_status_of(e, original@),
            },
    {
        if text_equals(lowered, "todo") || text_equals(lowered, "to-do") {
            Ok(Status::Todo)
        } else if text_equals(lowered, "done") || text_equals(lowered, "completed") {
            Ok(Status::Completed)
        } else if text_equals(lowered, "in-progress") || text_equals(lowered, "inprogress") {
            Ok(Status::InProgress)
        } else {
            Err(TodoError::InvalidStatus(String::from_str(original)))
        }
    }

    /// The canonical text of this status.
    pub fn label(&self) -> (r: &'static str)
        ensures
            r@ == status_label(*self),
    {
        match self {
            Status::Todo => "TODO",
            Status::InProgress => "IN-PROGRESS",
            Status::Completed => "DONE",
        }
    }
}

/// A unit of tracked work: a description and a status.
#[derive(Debug)]
pub struct Task {
    pub description: String,
    pub status: Status,
}

impl Task {
    /// A task's description is non-empty and already trimmed.
    pub open spec fn wf(&self) -> bool {
        &&& self.description@.len() > 0
        &&& trim_of(self.description@) == self.description@
    }

    /// Builds a task from the trimmed description, with status `Todo`.
    pub fn new(description: String) -> (r: Result<Task, TodoError>)
        ensures
            match r {
                Ok(t) => {
                    &&& trim_of(description@).len() > 0
                    &&& t.description@ == trim_of(description@)
                    &&& t.status == Status::Todo
                    &&& t.wf()
                },
                Err(e) => trim_of(description@).len() == 0 && e is EmptyDescription,
            },
    {
        let trimmed = trim_text(description.as_str());
        Task::from_trimmed(trimmed)
    }

    /// Builds a task from a description that is already trimmed.
    pub fn from_trimmed(trimmed: &str) -> (r: Result<Task, TodoError>)
        requires
            trim_of(trimmed@) == trimmed@,
        ensures
            match r {
                Ok(t) => {
                    &&& trimmed@.len() > 0
                    &&& t.description@ == trimmed@
                    &&& t.status == Status::Todo
                    &&& t.wf()
                },
                Err(e) => trimmed@.len() == 0 && e is EmptyDescription,
            },
    {
        if trimmed.is_empty() {
            Err(TodoError::EmptyDescription)
        } else {
            Ok(Task { description: String::from_str(trimmed), status: Status::Todo })
        }
    }

    pub fn is_completed(&self) -> (r: bool)
        ensures
            r == (self.status == Status::Completed),
    {
        self.status == Status::Completed
    }

    /// The task as `description [STATUS]`.
    pub fn to_text(&self) -> (r: String)
        ensures
            r@ == self.description@ + " ["@ + status_label(self.status) + "]"@,
    {
        let mut out = self.description.clone();
        out.append(" [");
        out.append(self.status.label());
        out.append("]");
        out
    }
}

/// Every task of the sequence is well formed.
pub open spec fn all_wf(tasks: Seq<Task>) -> bool {
    forall|i: int| 0 <= i < tasks.len() ==> #[trigger] tasks[i].wf()
}

/// The outcome of checking a 1-based index against a list of `len` tasks.
pub open spec fn index_check(index: usize, len: int) -> Result<(), TodoError> {
    if index == 0 {
        Err(TodoError::InvalidIndex)
    } else if index > len {
        Err(TodoError::IndexOutOfBound(index))
    } else {
        Ok(())
    }
}

/// The tasks, in order, paired with their 1-based positions.
pub open spec fn numbered(tasks: Seq<Task>) -> Seq<(int, Task)> {
    Seq::new(tasks.len(), |i: int| (i + 1, tasks[i]))
}

/// The numbered tasks whose status is `status`, in order.
pub open spec fn numbered_with(tasks: Seq<Task>, status: Status) -> Seq<(int, Task)> {
    numbered(tasks).filter(|p: (int, Task)| p.1.status == status)
}

/// A listing as positions and tasks.
pub open spec fn listing_view(r: Seq<(usize, &Task)>) -> Seq<(int, Task)> {
    r.map_values(|p: (usize, &Task)| (p.0 as int, *p.1))
}

/// The tasks that clearing completed ones keeps, in order.
pub open spec fn without_completed(tasks: Seq<Task>) -> Seq<Task> {
    tasks.filter(|t: Task| t.status != Status::Completed)
}

/// `new` is `old` with one task appended, whose description is `desc` and
/// whose status is `Todo`.
pub open spec fn appended(old: Seq<Task>, new: Seq<Task>, desc: Seq<char>) -> bool {
    &&& new.len() == old.len() + 1
    &&& new.subrange(0, old.len() as int) == old
    &&& new.last().description@ == desc
    &&& new.last().status == Status::Todo
}

/// What reading back stored tasks yields: the same tasks when every one is
/// well formed, nothing otherwise.
pub open spec fn reloaded(tasks: Seq<Task>) -> Option<Seq<Task>> {
    if all_wf(tasks) {
        Some(tasks)
    } else {
        None
    }
}

/// The ordered list of tasks.
#[derive(Debug)]
pub struct TodoList {
    pub tasks: Vec<Task>,
}

impl TodoList {
    /// Every task of the list is well formed.
    pub open spec fn wf(&self) -> bool {
        all_wf(self.tasks@)
    }

    pub fn new() -> (r: TodoList)
        ensures
            r.tasks@.len() == 0,
            r.wf(),
    {
        TodoList { tasks: Vec::new() }
    }

    /// Appends a task with the trimmed description and status `Todo`.
    pub fn add_tasks(&mut self, description: String) -> (r: Result<(), TodoError>)
        ensures
            old(self).wf() ==> final(self).wf(),
            match r {
                Ok(_) => trim_of(description@).len() > 0 && appended(
                    old(self).tasks@,
                    final(self).tasks@,
                    trim_of(description@),
                ),
                Err(e) => {
                    &&& trim_of(description@).len() == 0
                    &&& e is EmptyDescription
                    &&& final(self).tasks@ == old(self).tasks@
                },
            },
    {
        match Task::new(description) {
            Ok(task) => {
                self.tasks.push(task);
                assert(self.tasks@.subrange(0, old(self).tasks@.len() as int) =~= old(
                    self,
                ).tasks@);
                Ok(())
            },
            Err(e) => Err(e),
        }
    }

    pub fn len(&self) -> (r: usize)
        ensures
            r == self.tasks@.len(),
    {
        self.tasks.len()
    }

    pub fn is_empty(&self) -> (r: bool)
        ensures
            r == (self.tasks@.len() == 0),
    {
        self.tasks.is_empty()
    }

    /// All tasks in order, each with its 1-based position.
    pub fn list_tasks(&self) -> (r: Vec<(usize, &Task)>)
        ensures
            listing_view(r@) == numbered(self.tasks@),
    {
        let mut out: Vec<(usize, &Task)> = Vec::new();
        let mut i: usize = 0;
        while i < self.tasks.len()
            invariant
                i <= self.tasks@.len(),
                listing_view(out@) =~= numbered(self.tasks@.subrange(0, i as int)),
            decreases self.tasks@.len() - i,
        {
            let ghost prev = out@;
            out.push((i + 1, &self.tasks[i]));
            assert(out@ == prev.push(((i + 1) as usize, &self.tasks@[i as int])));
            assert(listing_view(out@) =~= listing_view(prev).push(
                ((i + 1) as int, self.tasks@[i as int]),
            ));
            i = i + 1;
            assert(listing_view(out@) =~= numbered(self.tasks@.subrange(0, i as int)));
        }
        assert(self.tasks@.subrange(0, i as int) =~= self.tasks@);
        out
    }

    /// The tasks whose status is `status`, in order, each with its position
    /// in the whole list.
    pub fn filter_by_status(&self, status: Status) -> (r: Vec<(usize, &Task)>)
        ensures
            listing_view(r@) == numbered_with(self.tasks@, status),
    {
        let mut out: Vec<(usize, &Task)> = Vec::new();
        let mut i: usize = 0;
        while i < self.tasks.len()
            invariant
                i <= self.tasks@.len(),
                listing_view(out@) == numbered_with(self.tasks@.subrange(0, i as int), status),
            decreases self.tasks@.len() - i,
        {
            let ghost before = self.tasks@.subrange(0, i as int);
            let ghost after = self.tasks@.subrange(0, i + 1);
            proof {
                reveal(Seq::filter);
                assert(numbered(after).drop_last() =~= numbered(before));
                assert(numbered(after).last() == (i + 1, self.tasks@[i as int]));
            }
            if self.tasks[i].status == status {
                out.push((i + 1, &self.tasks[i]));
            }
            i = i + 1;
            assert(listing_view(out@) =~= numbered_with(after, status));
        }
        assert(self.tasks@.subrange(0, i as int) =~= self.tasks@);
        out
    }

    /// Sets the status of the task at the 1-based `index`.
    pub fn update_task_status(&mut self, index: usize, new_status: Status) -> (r: Result<
        (),
        TodoError,
    >)
        ensures
            old(self).wf() ==> final(self).wf(),
            r == index_check(index, old(self).tasks@.len() as int),
            r is Ok ==> final(self).tasks@ == old(self).tasks@.update(
                index - 1,
                (Task { description: old(self).tasks@[index - 1].description, status: new_status }),
            ),
            r is Err ==> final(self).tasks@ == old(self).tasks@,
    {
        match self.validate_index(index) {
            Ok(()) => {},
            Err(e) => {
                return Err(e);
            },
        }
        self.tasks[index - 1].status = new_status;
        proof {
            if old(self).wf() {
                assert forall|k: int| 0 <= k < self.tasks@.len() implies #[trigger] self.tasks@[k].wf() by {
                    assert(old(self).tasks@[k].wf());
                }
            }
        }
        assert(final(self).tasks@ =~= old(self).tasks@.update(
            index - 1,
            (Task { description: old(self).tasks@[index - 1].description, status: new_status }),
        ));
        Ok(())
    }

    /// Parses `status_str` as a status, then sets it on the task at the
    /// 1-based `index`. An unrecognized status is reported before the index
    /// is checked.
    pub fn update_task_status_str(&mut self, index: usize, status_str: &str) -> (r: Result<
        (),
        TodoError,
    >)
        ensures
            old(self).wf() ==> final(self).wf(),
            match status_alias(lower_of(status_str@)) {
                None => {
                    &&& r matches Err(e) && invalid_status_of(e, status_str@)
                    &&& final(self).tasks@ == old(self).tasks@
                },
                Some(s) => {
                    &&& r == index_check(index, old(self).tasks@.len() as int)
                    &&& r is Ok ==> final(self).tasks@ == old(self).tasks@.update(
                        index - 1,
                        (Task { description: old(self).tasks@[index - 1].description, status: s }),
                    )
                    &&& r is Err ==> final(self).tasks@ == old(self).tasks@
                },
            },
    {
        match Status::from_str(status_str) {
            Ok(s) => self.update_task_status(index, s),
            Err(e) => Err(e),
        }
    }

    /// Removes and returns the task at the 1-based `index`; later tasks move
    /// down by one position.
    pub fn remove_task(&mut self, index: usize) -> (r: Result<Task, TodoError>)
        ensures
            old(self).wf() ==> final(self).wf(),
            match r {
                Ok(t) => {
                    &&& index_check(index, old(self).tasks@.len() as int) is Ok
                    &&& t == old(self).tasks@[index - 1]
                    &&& final(self).tasks@ == old(self).tasks@.remove(index - 1)
                },
                Err(e) => {
                    &&& index_check(index, old(self).tasks@.len() as int) == Err::<(), TodoError>(e)
                    &&& final(self).tasks@ == old(self).tasks@
                },
            },
    {
        match self.validate_index(index) {
            Ok(()) => {},
            Err(e) => {
                return Err(e);
            },
        }
        let t = self.tasks.remove(index - 1);
        proof {
            if old(self).wf() {
                assert forall|k: int| 0 <= k < self.tasks@.len() implies #[trigger] self.tasks@[k].wf() by {
                    if k < index - 1 {
                        assert(old(self).tasks@[k].wf());
                    } else {
                        assert(old(self).tasks@[k + 1].wf());
                    }
                }
            }
        }
        Ok(t)
    }

    /// Removes every completed task, keeping the others in order, and returns
    /// how many were removed.
    pub fn clear_completed(&mut self) -> (r: usize)
        ensures
            old(self).wf() ==> final(self).wf(),
            final(self).tasks@ == without_completed(old(self).tasks@),
            r == old(self).tasks@.len() - final(self).tasks@.len(),
    {
        let ghost orig = self.tasks@;
        let original_len = self.tasks.len();
        let mut i: usize = 0;
        let ghost mut j: int = 0;
        while i < self.tasks.len()
            invariant
                original_len == orig.len(),
                i <= self.tasks@.len(),
                i <= j <= orig.len(),
                self.tasks@.len() - i == orig.len() - j,
                self.tasks@.subrange(0, i as int) == without_completed(orig.subrange(0, j)),
                self.tasks@.subrange(i as int, self.tasks@.len() as int) == orig.subrange(
                    j,
                    orig.len() as int,
                ),
            decreases self.tasks@.len() - i,
        {
            let ghost cur = self.tasks@;
            let ghost i0: int = i as int;
            proof {
                reveal(Seq::filter);
                assert(orig.subrange(0, j + 1).drop_last() =~= orig.subrange(0, j));
                assert forall|k: int| 0 <= k < cur.len() - i implies #[trigger] cur[i + k] == orig[j + k] by {
                    assert(cur.subrange(i as int, cur.len() as int)[k] == orig.subrange(
                        j,
                        orig.len() as int,
                    )[k]);
                }
                assert(cur[i + 0] == orig[j + 0]);
            }
            if self.tasks[i].is_completed() {
                let _ = self.tasks.remove(i);
                assert(self.tasks@.subrange(0, i as int) =~= cur.subrange(0, i as int));
                assert forall|k: int| 0 <= k < self.tasks@.len() - i implies #[trigger] self.tasks@.subrange(
                    i as int,
                    self.tasks@.len() as int,
                )[k] == orig.subrange(j + 1, orig.len() as int)[k] by {
                    let k1 = k + 1;
                    assert(cur[i + k1] == orig[j + k1]);
                }
                assert(self.tasks@.subrange(i as int, self.tasks@.len() as int) =~= orig.subrange(
                    j + 1,
                    orig.len() as int,
                ));
            } else {
                i = i + 1;
                assert(self.tasks@.subrange(0, i as int) =~= cur.subrange(0, i - 1).push(
                    orig[j],
                ));
                assert forall|k: int| 0 <= k < self.tasks@.len() - i implies #[trigger] self.tasks@.subrange(
                    i as int,
                    self.tasks@.len() as int,
                )[k] == orig.subrange(j + 1, orig.len() as int)[k] by {
                    let k1 = k + 1;
                    assert(cur[i0 + k1] == orig[j + k1]);
                }
                assert(self.tasks@.subrange(i as int, self.tasks@.len() as int) =~= orig.subrange(
                    j + 1,
                    orig.len() as int,
                ));
            }
            proof {
                j = j + 1;
            }
        }
        assert(orig.subrange(0, j) =~= orig);
        assert(self.tasks@.subrange(0, i as int) =~= self.tasks@);
        proof {
            if all_wf(orig) {
                lemma_filter_keeps_wf(orig);
            }
        }
        original_len - self.tasks.len()
    }

    /// Builds a list from stored tasks, which must all be well formed.
    pub fn from_tasks(tasks: Vec<Task>) -> (r: Result<TodoList, TodoError>)
        ensures
            match r {
                Ok(l) => reloaded(tasks@) == Some(l.tasks@) && l.wf(),
                Err(e) => reloaded(tasks@) is None && e is SerializationError,
            },
    {
        let mut i: usize = 0;
        while i < tasks.len()
            invariant
                i <= tasks@.len(),
                forall|k: int| 0 <= k < i ==> #[trigger] tasks@[k].wf(),
            decreases tasks@.len() - i,
        {
            let d = tasks[i].description.as_str();
            let trimmed = trim_text(d);
            if trimmed.is_empty() || !text_equals(trimmed, d) {
                assert(!tasks@[i as int].wf());
                return Err(
                    TodoError::SerializationError(
                        String::from_str("a stored task has an empty or untrimmed description"),
                    ),
                );
            }
            i = i + 1;
        }
        Ok(TodoList { tasks })
    }

    /// Checks a 1-based index against the list.
    fn validate_index(&self, index: usize) -> (r: Result<(), TodoError>)
        ensures
            r == index_check(index, self.tasks@.len() as int),
    {
        if index == 0 {
            return Err(TodoError::InvalidIndex);
        }
        if index > self.tasks.len() {
            return Err(TodoError::IndexOutOfBound(index));
        }
        Ok(())
    }
}

/// Filtering keeps well-formedness of every remaining task.
proof fn lemma_filter_keeps_wf(tasks: Seq<Task>)
    requires
        all_wf(tasks),
    ensures
        all_wf(without_completed(tasks)),
    decreases tasks.len(),
{
    reveal(Seq::filter);
    if tasks.len() > 0 {
        let rest = tasks.drop_last();
        assert forall|i: int| 0 <= i < rest.len() implies #[trigger] rest[i].wf() by {
            assert(tasks[i].wf());
        }
        lemma_filter_keeps_wf(rest);
        assert(tasks[tasks.len() - 1].wf());
    }
}

} // verus!
