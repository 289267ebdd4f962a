use crate::filtering::{lemma_filter_empty, lemma_filter_push};
use crate::model::{is_completed, is_important, lemma_task_index_is, owner_matches, StoreView};
use crate::owner::Owner;
use crate::task::{Task, TaskView};
use vstd::pervasive::VecAdditionalExecFns;
use vstd::prelude::*;

verus! {

/// The views of a sequence of stored tasks, in the same order.
pub open spec fn views_of(ts: Seq<Task>) -> Seq<TaskView> {
    ts.map_values(|t: Task| t@)
}

/// The task store: the next identifier to assign and every owner's tasks.
/// All tasks live in one vector in creation order; an owner's list is the
/// subsequence of the tasks that carry that owner, so per-owner insertion
/// order is preserved and an owner without tasks simply owns none of them.
pub struct TaskStore {
    counter: u64,
    tasks: Vec<Task>,
}

impl View for TaskStore {
    type V = StoreView;

    closed spec fn view(&self) -> StoreView {
        StoreView { counter: self.counter as nat, tasks: views_of(self.tasks@) }
    }
}

impl TaskStore {
    /// Well-formedness of the store; established by the constructor and
    /// preserved by every operation.
    pub open spec fn wf(&self) -> bool {
        self@.wf()
    }

    /// A fresh, empty store: no tasks, next identifier 0.
    pub fn new() -> (r: TaskStore)
        ensures
            r@ == StoreView::empty(),
            r.wf(),
    {
        let r = TaskStore { counter: 0, tasks: Vec::new() };
        proof {
            assert(r@.tasks =~= Seq::<TaskView>::empty());
            assert(r@ =~= StoreView::empty());
        }
        r
    }

    /// Resets the store: the counter returns to 0 and every owner's task
    /// list becomes empty, whatever the state was before. Idempotent.
    pub fn init(&mut self)
        ensures
            final(self)@ == StoreView::empty(),
            final(self).wf(),
            forall|o: Seq<u8>| final(self)@.owned_by(o) == Seq::<TaskView>::empty(),
    {
        self.counter = 0;
        self.tasks = Vec::new();
        proof {
            assert(self@.tasks =~= Seq::<TaskView>::empty());
            assert(self@ =~= StoreView::empty());
            assert forall|o: Seq<u8>| self@.owned_by(o) == Seq::<TaskView>::empty() by {
                lemma_filter_empty::<TaskView>(owner_matches(o));
            }
        }
    }

    /// The identifier that the next created task will receive. Callers that
    /// cannot discharge the overflow precondition of [`Self::add_task`] can
    /// test it through this.
    pub fn next_id(&self) -> (r: u64)
        ensures
            r as nat == self@.counter,
    {
        self.counter
    }

    /// Creates a task for `owner`: it receives the current counter value as
    /// its identifier, starts not completed, carries the label derived from
    /// `importance`, and is appended to the owner's list. The counter moves
    /// up by one. The created task is returned.
    pub fn add_task(
        &mut self,
        owner: Owner,
        description: String,
        date: String,
        importance: bool,
    ) -> (task: Task)
        requires
            old(self).wf(),
            old(self)@.counter < u64::MAX,
        ensures
            final(self).wf(),
            final(self)@ == old(self)@.create(owner@, description@, date@, importance),
            task@ == old(self)@.created_task(owner@, description@, date@, importance),
    {
        let task_id = self.counter;
        self.counter = self.counter + 1;
        let importance_level = if importance {
            "High Priority".to_owned()
        } else {
            "Normal Priority".to_owned()
        };
        let task = Task {
            id: task_id,
            description,
            completed: false,
            important: importance,
            date_added: date,
            importance_level,
            owner,
        };
        let stored = task.clone();
        self.tasks.push(stored);
        proof {
            let v0 = old(self)@;
            let v1 = self@;
            let t = task@;
            assert(v1.tasks =~= v0.tasks.push(t));
            assert(v1 =~= v0.create(t.owner, t.description, t.date_added, t.important));
            assert forall|i: int, j: int|
                0 <= i < j < v1.tasks.len() implies #[trigger] v1.tasks[i].id
                < #[trigger] v1.tasks[j].id by {
                if j < v0.tasks.len() {
                    assert(v0.tasks[i].id < v0.tasks[j].id);
                } else {
                    assert(v1.tasks[j] == t);
                    assert(v0.tasks[i].id < v0.counter);
                }
            }
        }
        task
    }

    /// Returns a copy of the caller's task with the given identifier, or
    /// nothing when the caller owns no such task. Another owner's task is
    /// never returned, even when its identifier matches.
    pub fn get_task(&self, owner: &Owner, task_id: u64) -> (r: Option<Task>)
        requires
            self.wf(),
        ensures
            r is Some <==> self@.has_task(owner@, task_id as nat),
            match r {
                Some(t) => t@ == self@.tasks[self@.task_index(owner@, task_id as nat)]
                    && t@.owner == owner@ && t@.id == task_id as nat,
                None => !self@.has_task(owner@, task_id as nat),
            },
    {
        let mut i: usize = 0;
        while i < self.tasks.len()
            invariant
                self.wf(),
                i <= self.tasks.len(),
                forall|k: int|
                    0 <= k < i ==> !((#[trigger] self@.tasks[k]).owner == owner@
                        && self@.tasks[k].id == task_id as nat),
            decreases self.tasks.len() - i,
        {
            if self.tasks[i].id == task_id && self.tasks[i].owner == *owner {
                proof {
                    lemma_task_index_is(self@, owner@, task_id as nat, i as int);
                }
                return Some(self.tasks[i].clone());
            }
            i = i + 1;
        }
        None
    }

    /// Flips `completed` on the caller's task with the given identifier and
    /// reports whether such a task was found. When the caller owns no task
    /// with that identifier, nothing changes and `false` comes back.
    pub fn toggle_task_completion(&mut self, owner: &Owner, task_id: u64) -> (r: bool)
        requires
            old(self).wf(),
        ensures
            final(self).wf(),
            r == old(self)@.has_task(owner@, task_id as nat),
            final(self)@ == old(self)@.toggle_completion(owner@, task_id as nat),
            !r ==> final(self)@ == old(self)@,
    {
        let mut i: usize = 0;
        while i < self.tasks.len()
            invariant
                self.wf(),
                self@ == old(self)@,
                i <= self.tasks.len(),
                forall|k: int|
                    0 <= k < i ==> !((#[trigger] self@.tasks[k]).owner == owner@
                        && self@.tasks[k].id == task_id as nat),
            decreases self.tasks.len() - i,
        {
            if self.tasks[i].id == task_id && self.tasks[i].owner == *owner {
                proof {
                    lemma_task_index_is(self@, owner@, task_id as nat, i as int);
                }
                let mut t = self.tasks[i].clone();
                t.completed = !t.completed;
                self.tasks.set(i, t);
                proof {
                    let v0 = old(self)@;
                    let v1 = self@;
                    let u = v0.tasks[i as int];
                    assert(v1.tasks =~= v0.tasks.update(
                        i as int,
                        (TaskView { completed: !u.completed, ..u }),
                    ));
                    assert(v1 =~= v0.toggle_completion(owner@, task_id as nat));
                    assert forall|a: int, b: int|
                        0 <= a < b < v1.tasks.len() implies #[trigger] v1.tasks[a].id
                        < #[trigger] v1.tasks[b].id by {
                        assert(v0.tasks[a].id < v0.tasks[b].id);
                    }
                }
                return true;
            }
            i = i + 1;
        }
        false
    }

    /// Flips `important` on the caller's task with the given identifier,
    /// re-derives its label so the two stay consistent, and reports whether
    /// such a task was found. When the caller owns no task with that
    /// identifier, nothing changes and `false` comes back.
    pub fn toggle_task_importance(&mut self, owner: &Owner, task_id: u64) -> (r: bool)
        requires
            old(self).wf(),
        ensures
            final(self).wf(),
            r == old(self)@.has_task(owner@, task_id as nat),
            final(self)@ == old(self)@.toggle_importance(owner@, task_id as nat),
            !r ==> final(self)@ == old(self)@,
    {
        let mut i: usize = 0;
        while i < self.tasks.len()
            invariant
                self.wf(),
                self@ == old(self)@,
                i <= self.tasks.len(),
                forall|k: int|
                    0 <= k < i ==> !((#[trigger] self@.tasks[k]).owner == owner@
                        && self@.tasks[k].id == task_id as nat),
            decreases self.tasks.len() - i,
        {
            if self.tasks[i].id == task_id && self.tasks[i].owner == *owner {
                proof {
                    lemma_task_index_is(self@, owner@, task_id as nat, i as int);
                }
                let mut t = self.tasks[i].clone();
                t.important = !t.important;
                t.importance_level = if t.important {
                    "High Priority".to_owned()
                } else {
                    "Normal Priority".to_owned()
                };
                self.tasks.set(i, t);
                proof {
                    let v0 = old(self)@;
                    let v1 = self@;
                    let u = v0.tasks[i as int];
                    assert(v1.tasks =~= v0.tasks.update(
                        i as int,
                        (TaskView {
                            important: !u.important,
                            importance_level: crate::task::level_of(!u.important),
                            ..u
                        }),
                    ));
                    assert(v1 =~= v0.toggle_importance(owner@, task_id as nat));
                    assert forall|a: int, b: int|
                        0 <= a < b < v1.tasks.len() implies #[trigger] v1.tasks[a].id
                        < #[trigger] v1.tasks[b].id by {
                        assert(v0.tasks[a].id < v0.tasks[b].id);
                    }
                }
                return true;
            }
            i = i + 1;
        }
        false
    }

    /// Returns copies of all the caller's tasks, in insertion order; the
    /// empty vector when the caller owns none.
    pub fn get_tasks(&self, owner: &Owner) -> (r: Vec<Task>)
        ensures
            views_of(r@) == self@.owned_by(owner@),
    {
        let ghost all = self@.tasks;
        let ghost pred = owner_matches(owner@);
        let mut r: Vec<Task> = Vec::new();
        proof {
            assert(views_of(r@) =~= Seq::<TaskView>::empty());
            assert(all.take(0) =~= Seq::<TaskView>::empty());
            lemma_filter_empty::<TaskView>(pred);
        }
        let mut i: usize = 0;
        while i < self.tasks.len()
            invariant
                all == self@.tasks,
                pred == owner_matches(owner@),
                i <= self.tasks.len(),
                self.tasks.len() == all.len(),
                views_of(r@) == all.take(i as int).filter(pred),
            decreases self.tasks.len() - i,
        {
            proof {
                assert(all.take(i as int + 1) =~= all.take(i as int).push(all[i as int]));
                lemma_filter_push(all.take(i as int), all[i as int], pred);
            }
            if self.tasks[i].owner == *owner {
                let c = self.tasks[i].clone();
                let ghost r0 = r@;
                r.push(c);
                proof {
                    assert(views_of(r@) =~= views_of(r0).push(c@));
                }
            }
            i = i + 1;
        }
        proof {
            assert(all.take(all.len() as int) =~= all);
        }
        r
    }

    /// Returns copies of the caller's tasks flagged important, keeping
    /// their relative insertion order.
    pub fn get_important_tasks(&self, owner: &Owner) -> (r: Vec<Task>)
        ensures
            views_of(r@) == self@.important_of(owner@),
    {
        let ghost all = self@.tasks;
        let ghost opred = owner_matches(owner@);
        let ghost ipred = is_important();
        let mut r: Vec<Task> = Vec::new();
        proof {
            assert(views_of(r@) =~= Seq::<TaskView>::empty());
            assert(all.take(0) =~= Seq::<TaskView>::empty());
            lemma_filter_empty::<TaskView>(opred);
            lemma_filter_empty::<TaskView>(ipred);
        }
        let mut i: usize = 0;
        while i < self.tasks.len()
            invariant
                all == self@.tasks,
                opred == owner_matches(owner@),
                ipred == is_important(),
                i <= self.tasks.len(),
                self.tasks.len() == all.len(),
                views_of(r@) == all.take(i as int).filter(opred).filter(ipred),
            decreases self.tasks.len() - i,
        {
            proof {
                assert(all.take(i as int + 1) =~= all.take(i as int).push(all[i as int]));
                lemma_filter_push(all.take(i as int), all[i as int], opred);
                if opred(all[i as int]) {
                    lemma_filter_push(all.take(i as int).filter(opred), all[i as int], ipred);
                }
            }
            if self.tasks[i].owner == *owner && self.tasks[i].important {
                let c = self.tasks[i].clone();
                let ghost r0 = r@;
                r.push(c);
                proof {
                    assert(views_of(r@) =~= views_of(r0).push(c@));
                }
            }
            i = i + 1;
        }
        proof {
            assert(all.take(all.len() as int) =~= all);
        }
        r
    }

    /// Returns copies of the caller's completed tasks, keeping their
    /// relative insertion order.
    pub fn get_completed_tasks(&self, owner: &Owner) -> (r: Vec<Task>)
        ensures
            views_of(r@) == self@.completed_of(owner@),
    {
        let ghost all = self@.tasks;
        let ghost opred = owner_matches(owner@);
        let ghost cpred = is_completed();
        let mut r: Vec<Task> = Vec::new();
        proof {
            assert(views_of(r@) =~= Seq::<TaskView>::empty());
            assert(all.take(0) =~= Seq::<TaskView>::empty());
            lemma_filter_empty::<TaskView>(opred);
            lemma_filter_empty::<TaskView>(cpred);
        }
        let mut i: usize = 0;
        while i < self.tasks.len()
            invariant
                all == self@.tasks,
                opred == owner_matches(owner@),
                cpred == is_completed(),
                i <= self.tasks.len(),
                self.tasks.len() == all.len(),
                views_of(r@) == all.take(i as int).filter(opred).filter(cpred),
            decreases self.tasks.len() - i,
        {
            proof {
                assert(all.take(i as int + 1) =~= all.take(i as int).push(all[i as int]));
                lemma_filter_push(all.take(i as int), all[i as int], opred);
                if opred(all[i as int]) {
                    lemma_filter_push(all.take(i as int).filter(opred), all[i as int], cpred);
                }
            }
            if self.tasks[i].owner == *owner && self.tasks[i].completed {
                let c = self.tasks[i].clone();
                let ghost r0 = r@;
                r.push(c);
                proof {
                    assert(views_of(r@) =~= views_of(r0).push(c@));
                }
            }
            i = i + 1;
        }
        proof {
            assert(all.take(all.len() as int) =~= all);
        }
        r
    }

    /// Removes the caller's task with the given identifier and reports
    /// whether a removal happened. Other tasks keep their identifiers and
    /// order; the counter is not rolled back. When the caller owns no task
    /// with that identifier, nothing changes and `false` comes back.
    pub fn delete_task(&mut self, owner: &Owner, task_id: u64) -> (r: bool)
        requires
            old(self).wf(),
        ensures
            final(self).wf(),
            r == old(self)@.has_task(owner@, task_id as nat),
            final(self)@ == old(self)@.delete(owner@, task_id as nat),
            !r ==> final(self)@ == old(self)@,
    {
        let mut i: usize = 0;
        while i < self.tasks.len()
            invariant
                self.wf(),
                self@ == old(self)@,
                i <= self.tasks.len(),
                forall|k: int|
                    0 <= k < i ==> !((#[trigger] self@.tasks[k]).owner == owner@
                        && self@.tasks[k].id == task_id as nat),
            decreases self.tasks.len() - i,
        {
            if self.tasks[i].id == task_id && self.tasks[i].owner == *owner {
                proof {
                    lemma_task_index_is(self@, owner@, task_id as nat, i as int);
                }
                self.tasks.remove(i);
                proof {
                    let v0 = old(self)@;
                    let v1 = self@;
                    assert(v1.tasks =~= v0.tasks.remove(i as int));
                    assert(v1 =~= v0.delete(owner@, task_id as nat));
                    assert forall|a: int, b: int|
                        0 <= a < b < v1.tasks.len() implies #[trigger] v1.tasks[a].id
                        < #[trigger] v1.tasks[b].id by {
                        let a0: int = if a < i { a } else { a + 1 };
                        let b0: int = if b < i { b } else { b + 1 };
                        assert(v1.tasks[a] == v0.tasks[a0]);
                        assert(v1.tasks[b] == v0.tasks[b0]);
                        assert(v0.tasks[a0].id < v0.tasks[b0].id);
                    }
                }
                return true;
            }
            i = i + 1;
        }
        false
    }
}

} // verus!
