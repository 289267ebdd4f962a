use crate::task::{level_of, TaskView};
use vstd::prelude::*;

verus! {

/// The predicate that selects the tasks of one owner.
pub open spec fn owner_matches(o: Seq<u8>) -> spec_fn(TaskView) -> bool {
    |t: TaskView| t.owner == o
}

/// The predicate that selects the tasks flagged important.
pub open spec fn is_important() -> spec_fn(TaskView) -> bool {
    |t: TaskView| t.important
}

/// The predicate that selects the completed tasks.
pub open spec fn is_completed() -> spec_fn(TaskView) -> bool {
    |t: TaskView| t.completed
}

/// The mathematical state of the store: the next identifier to assign and
/// every owner's tasks, merged into one sequence in creation order. The
/// tasks of one owner are the subsequence selected by [`owner_matches`],
/// so per-owner insertion order is the order of this sequence.
#[verifier::ext_equal]
pub ghost struct StoreView {
    pub counter: nat,
    pub tasks: Seq<TaskView>,
}

impl StoreView {
    /// The state right after initialization: no tasks, next identifier 0.
    pub open spec fn empty() -> StoreView {
        StoreView { counter: 0, tasks: Seq::empty() }
    }

    /// Well-formedness: identifiers are strictly increasing in creation
    /// order (hence unique store-wide), every identifier is below the
    /// counter, and every label matches its task's `important` flag.
    pub open spec fn wf(self) -> bool {
        &&& forall|i: int, j: int|
            0 <= i < j < self.tasks.len() ==> #[trigger] self.tasks[i].id < #[trigger] self.tasks[j].id
        &&& forall|i: int| 0 <= i < self.tasks.len() ==> (#[trigger] self.tasks[i]).id < self.counter
        &&& forall|i: int|
            0 <= i < self.tasks.len() ==> (#[trigger] self.tasks[i]).importance_level == level_of(
                self.tasks[i].important,
            )
    }

    /// The tasks of owner `o`, in insertion order.
    pub open spec fn owned_by(self, o: Seq<u8>) -> Seq<TaskView> {
        self.tasks.filter(owner_matches(o))
    }

    /// The tasks of owner `o` flagged important, in insertion order.
    pub open spec fn important_of(self, o: Seq<u8>) -> Seq<TaskView> {
        self.owned_by(o).filter(is_important())
    }

    /// The completed tasks of owner `o`, in insertion order.
    pub open spec fn completed_of(self, o: Seq<u8>) -> Seq<TaskView> {
        self.owned_by(o).filter(is_completed())
    }

    /// Whether owner `o` has a task with identifier `id`.
    pub open spec fn has_task(self, o: Seq<u8>, id: nat) -> bool {
        exists|i: int|
            0 <= i < self.tasks.len() && (#[trigger] self.tasks[i]).owner == o
                && self.tasks[i].id == id
    }

    /// The position of owner `o`'s task with identifier `id`; meaningful
    /// only when `has_task` holds (identifiers are unique under `wf`).
    pub open spec fn task_index(self, o: Seq<u8>, id: nat) -> int {
        choose|i: int|
            0 <= i < self.tasks.len() && (#[trigger] self.tasks[i]).owner == o
                && self.tasks[i].id == id
    }

    /// The task that a creation call builds: next identifier, not yet
    /// completed, label derived from the flag, owned by the caller.
    pub open spec fn created_task(
        self,
        o: Seq<u8>,
        description: Seq<char>,
        date: Seq<char>,
        important: bool,
    ) -> TaskView {
        TaskView {
            id: self.counter,
            description: description,
            completed: false,
            important: important,
            date_added: date,
            importance_level: level_of(important),
            owner: o,
        }
    }

    /// Creation: append the new task and advance the counter by one.
    pub open spec fn create(
        self,
        o: Seq<u8>,
        description: Seq<char>,
        date: Seq<char>,
        important: bool,
    ) -> StoreView {
        StoreView {
            counter: self.counter + 1,
            tasks: self.tasks.push(self.created_task(o, description, date, important)),
        }
    }

    /// Flipping the `completed` flag of owner `o`'s task `id`; the state is
    /// unchanged when the owner has no such task.
    pub open spec fn toggle_completion(self, o: Seq<u8>, id: nat) -> StoreView {
        if self.has_task(o, id) {
            let i = self.task_index(o, id);
            let t = self.tasks[i];
            StoreView {
                tasks: self.tasks.update(i, (TaskView { completed: !t.completed, ..t })),
                ..self
            }
        } else {
            self
        }
    }

    /// Flipping the `important` flag of owner `o`'s task `id` and re-deriving
    /// its label; the state is unchanged when the owner has no such task.
    pub open spec fn toggle_importance(self, o: Seq<u8>, id: nat) -> StoreView {
        if self.has_task(o, id) {
            let i = self.task_index(o, id);
            let t = self.tasks[i];
            StoreView {
                tasks: self.tasks.update(
                    i,
                    (TaskView {
                        important: !t.important,
                        importance_level: level_of(!t.important),
                        ..t
                    }),
                ),
                ..self
            }
        } else {
            self
        }
    }

    /// Removing owner `o`'s task `id`; other tasks keep their identifiers
    /// and order, the counter is not rolled back. The state is unchanged
    /// when the owner has no such task.
    pub open spec fn delete(self, o: Seq<u8>, id: nat) -> StoreView {
        if self.has_task(o, id) {
            StoreView { tasks: self.tasks.remove(self.task_index(o, id)), ..self }
        } else {
            self
        }
    }
}

/// Under `wf`, identifiers are unique, so any position holding a matching
/// task is the position `task_index` picks.
pub proof fn lemma_task_index_is(s: StoreView, o: Seq<u8>, id: nat, i: int)
    requires
        s.wf(),
        0 <= i < s.tasks.len(),
        s.tasks[i].owner == o,
        s.tasks[i].id == id,
    ensures
        s.has_task(o, id),
        s.task_index(o, id) == i,
{
    assert(s.has_task(o, id));
    let j = s.task_index(o, id);
    if i < j {
        assert(s.tasks[i].id < s.tasks[j].id);
    }
    if j < i {
        assert(s.tasks[j].id < s.tasks[i].id);
    }
}

} // verus!
