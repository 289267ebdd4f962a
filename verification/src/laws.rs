use crate::filtering::{
    lemma_filter_push, lemma_filter_remove_unmatched, lemma_filter_update_unmatched,
};
use crate::model::{lemma_task_index_is, owner_matches, StoreView};
use crate::task::TaskView;
use vstd::prelude::*;

verus! {

/// One creation request: the caller identity and the data handed in.
pub ghost struct CreateRequest {
    pub owner: Seq<u8>,
    pub description: Seq<char>,
    pub date: Seq<char>,
    pub important: bool,
}

/// The state after serving a sequence of creation requests in order.
pub open spec fn run_creates(s: StoreView, reqs: Seq<CreateRequest>) -> StoreView
    decreases reqs.len(),
{
    if reqs.len() == 0 {
        s
    } else {
        let r = reqs.last();
        run_creates(s, reqs.drop_last()).create(r.owner, r.description, r.date, r.important)
    }
}

/// The identifier that the request at position `k` of a run receives: the
/// counter of the state just before that request is served.
pub open spec fn assigned_id(s: StoreView, reqs: Seq<CreateRequest>, k: int) -> nat {
    run_creates(s, reqs.take(k)).counter
}

/// Each creation moves the counter up by exactly one, so a run of requests
/// moves it up by their number.
pub proof fn lemma_counter_after_run(s: StoreView, reqs: Seq<CreateRequest>)
    ensures
        run_creates(s, reqs).counter == s.counter + reqs.len(),
    decreases reqs.len(),
{
    if reqs.len() > 0 {
        lemma_counter_after_run(s, reqs.drop_last());
    }
}

/// Identifier uniqueness and monotonicity: in any run of creation requests,
/// whichever callers they come from, the request at position `k` receives
/// identifier `s.counter + k`; identifiers strictly increase in call order
/// and never repeat.
pub proof fn lemma_ids_in_call_order(s: StoreView, reqs: Seq<CreateRequest>)
    ensures
        forall|k: int| 0 <= k < reqs.len() ==> #[trigger] assigned_id(s, reqs, k) == s.counter + k,
        forall|k1: int, k2: int|
            0 <= k1 < k2 < reqs.len() ==> #[trigger] assigned_id(s, reqs, k1)
                < #[trigger] assigned_id(s, reqs, k2),
{
    assert forall|k: int| 0 <= k < reqs.len() implies #[trigger] assigned_id(s, reqs, k)
        == s.counter + k by {
        assert(reqs.take(k).len() == k);
        lemma_counter_after_run(s, reqs.take(k));
    }
}

/// From a fresh store, a run of N creation requests hands out exactly the
/// identifiers 0, 1, ..., N-1, in call order.
pub proof fn lemma_ids_from_fresh_store(reqs: Seq<CreateRequest>)
    ensures
        forall|k: int|
            0 <= k < reqs.len() ==> #[trigger] assigned_id(StoreView::empty(), reqs, k) == k,
{
    lemma_ids_in_call_order(StoreView::empty(), reqs);
}

/// A creation appends the created task to its caller's own list.
pub proof fn lemma_create_appends_for_owner(
    s: StoreView,
    o: Seq<u8>,
    description: Seq<char>,
    date: Seq<char>,
    important: bool,
)
    ensures
        s.create(o, description, date, important).owned_by(o) == s.owned_by(o).push(
            s.created_task(o, description, date, important),
        ),
{
    lemma_filter_push(s.tasks, s.created_task(o, description, date, important), owner_matches(o));
}

/// Owner isolation at creation: a task created by one caller never shows up
/// in any other owner's list.
pub proof fn lemma_create_isolation(
    s: StoreView,
    o: Seq<u8>,
    description: Seq<char>,
    date: Seq<char>,
    important: bool,
    other: Seq<u8>,
)
    requires
        other != o,
    ensures
        s.create(o, description, date, important).owned_by(other) == s.owned_by(other),
{
    lemma_filter_push(
        s.tasks,
        s.created_task(o, description, date, important),
        owner_matches(other),
    );
}

/// Owner isolation at completion toggling: one caller's toggle leaves every
/// other owner's list untouched.
pub proof fn lemma_toggle_completion_isolation(s: StoreView, o: Seq<u8>, id: nat, other: Seq<u8>)
    requires
        s.wf(),
        other != o,
    ensures
        s.toggle_completion(o, id).owned_by(other) == s.owned_by(other),
{
    if s.has_task(o, id) {
        let i = s.task_index(o, id);
        let t = s.tasks[i];
        lemma_filter_update_unmatched(
            s.tasks,
            i,
            (TaskView { completed: !t.completed, ..t }),
            owner_matches(other),
        );
    }
}

/// Owner isolation at importance toggling: one caller's toggle leaves every
/// other owner's list untouched.
pub proof fn lemma_toggle_importance_isolation(s: StoreView, o: Seq<u8>, id: nat, other: Seq<u8>)
    requires
        s.wf(),
        other != o,
    ensures
        s.toggle_importance(o, id).owned_by(other) == s.owned_by(other),
{
    if s.has_task(o, id) {
        let i = s.task_index(o, id);
        let t = s.tasks[i];
        lemma_filter_update_unmatched(
            s.tasks,
            i,
            (TaskView {
                important: !t.important,
                importance_level: crate::task::level_of(!t.important),
                ..t
            }),
            owner_matches(other),
        );
    }
}

/// Owner isolation at deletion: one caller's deletion leaves every other
/// owner's list untouched.
pub proof fn lemma_delete_isolation(s: StoreView, o: Seq<u8>, id: nat, other: Seq<u8>)
    requires
        s.wf(),
        other != o,
    ensures
        s.delete(o, id).owned_by(other) == s.owned_by(other),
{
    if s.has_task(o, id) {
        lemma_filter_remove_unmatched(s.tasks, s.task_index(o, id), owner_matches(other));
    }
}

/// Toggling completion preserves well-formedness.
pub proof fn lemma_toggle_completion_wf(s: StoreView, o: Seq<u8>, id: nat)
    requires
        s.wf(),
    ensures
        s.toggle_completion(o, id).wf(),
{
    let s1 = s.toggle_completion(o, id);
    assert forall|a: int, b: int| 0 <= a < b < s1.tasks.len() implies #[trigger] s1.tasks[a].id
        < #[trigger] s1.tasks[b].id by {
        assert(s.tasks[a].id < s.tasks[b].id);
    }
}

/// Toggling importance preserves well-formedness: in particular the
/// re-derived label again matches the flipped flag.
pub proof fn lemma_toggle_importance_wf(s: StoreView, o: Seq<u8>, id: nat)
    requires
        s.wf(),
    ensures
        s.toggle_importance(o, id).wf(),
{
    let s1 = s.toggle_importance(o, id);
    assert forall|a: int, b: int| 0 <= a < b < s1.tasks.len() implies #[trigger] s1.tasks[a].id
        < #[trigger] s1.tasks[b].id by {
        assert(s.tasks[a].id < s.tasks[b].id);
    }
}

/// Round-trip completion toggle: on an existing task the first toggle is
/// seen (the task is still there afterwards, so both calls report success)
/// and the second toggle restores the store exactly.
pub proof fn lemma_toggle_completion_round_trip(s: StoreView, o: Seq<u8>, id: nat)
    requires
        s.wf(),
        s.has_task(o, id),
    ensures
        s.toggle_completion(o, id).has_task(o, id),
        s.toggle_completion(o, id).toggle_completion(o, id) == s,
{
    let i = s.task_index(o, id);
    let t = s.tasks[i];
    let t2 = TaskView { completed: !t.completed, ..t };
    let s1 = s.toggle_completion(o, id);
    lemma_toggle_completion_wf(s, o, id);
    lemma_task_index_is(s1, o, id, i);
    let t3 = TaskView { completed: !t2.completed, ..t2 };
    assert(t3 == t);
    assert(s1.toggle_completion(o, id).tasks =~= s.tasks);
    assert(s1.toggle_completion(o, id) =~= s);
}

/// Round-trip importance toggle: on an existing task the first toggle is
/// seen (both calls report success) and the second toggle restores the
/// store exactly, label included.
pub proof fn lemma_toggle_importance_round_trip(s: StoreView, o: Seq<u8>, id: nat)
    requires
        s.wf(),
        s.has_task(o, id),
    ensures
        s.toggle_importance(o, id).has_task(o, id),
        s.toggle_importance(o, id).toggle_importance(o, id) == s,
{
    let i = s.task_index(o, id);
    let t = s.tasks[i];
    let t2 = TaskView {
        important: !t.important,
        importance_level: crate::task::level_of(!t.important),
        ..t
    };
    let s1 = s.toggle_importance(o, id);
    lemma_toggle_importance_wf(s, o, id);
    lemma_task_index_is(s1, o, id, i);
    let t3 = TaskView {
        important: !t2.important,
        importance_level: crate::task::level_of(!t2.important),
        ..t2
    };
    assert(t3 == t);
    assert(s1.toggle_importance(o, id).tasks =~= s.tasks);
    assert(s1.toggle_importance(o, id) =~= s);
}

} // verus!
