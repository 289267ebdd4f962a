use crate::owner::Owner;
use vstd::prelude::*;

verus! {

/// The label that the store keeps beside the `important` flag. It is derived
/// presentation data and is recomputed whenever the flag changes, so it can
/// never diverge from the flag.
pub open spec fn level_of(important: bool) -> Seq<char> {
    if important {
        "High Priority"@
    } else {
        "Normal Priority"@
    }
}

/// The mathematical value of a [`Task`]: what every contract of the store
/// speaks about. Identifiers are unbounded here; the executable counter
/// guarantees that each one fits in a `u64`.
#[verifier::ext_equal]
pub ghost struct TaskView {
    pub id: nat,
    pub description: Seq<char>,
    pub completed: bool,
    pub important: bool,
    pub date_added: Seq<char>,
    pub importance_level: Seq<char>,
    pub owner: Seq<u8>,
}

/// One user-created item. The `id` is unique for the lifetime of the store,
/// `owner` is the identity of the creating caller, and `importance_level`
/// always carries the label derived from `important`.
pub struct Task {
    pub id: u64,
    pub description: String,
    pub completed: bool,
    pub important: bool,
    pub date_added: String,
    pub importance_level: String,
    pub owner: Owner,
}

impl View for Task {
    type V = TaskView;

    open spec fn view(&self) -> TaskView {
        TaskView {
            id: self.id as nat,
            description: self.description@,
            completed: self.completed,
            important: self.important,
            date_added: self.date_added@,
            importance_level: self.importance_level@,
            owner: self.owner@,
        }
    }
}

impl Clone for Task {
    fn clone(&self) -> (r: Task)
        ensures
            r@ == self@,
    {
        Task {
            id: self.id,
            description: self.description.clone(),
            completed: self.completed,
            important: self.important,
            date_added: self.date_added.clone(),
            importance_level: self.importance_level.clone(),
            owner: self.owner.clone(),
        }
    }
}

} // verus!
