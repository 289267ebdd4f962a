use to_do_list_backend::owner::Owner;
use to_do_list_backend::store::TaskStore;

fn owner_a() -> Owner {
    Owner::new(vec![1, 2, 3])
}

fn owner_b() -> Owner {
    Owner::new(vec![9, 9])
}

#[test]
fn owner_equality_goes_by_bytes() {
    assert!(owner_a() == owner_a());
    assert!(owner_a() != owner_b());
    assert!(Owner::new(vec![]) == Owner::new(vec![]));
    assert!(Owner::new(vec![1]) != Owner::new(vec![1, 0]));
}

#[test]
fn ids_are_sequential_across_callers() {
    let mut store = TaskStore::new();
    let t0 = store.add_task(owner_a(), "a0".to_string(), "2024-01-01".to_string(), false);
    let t1 = store.add_task(owner_b(), "b0".to_string(), "2024-01-02".to_string(), true);
    let t2 = store.add_task(owner_a(), "a1".to_string(), "2024-01-03".to_string(), true);
    let t3 = store.add_task(owner_b(), "b1".to_string(), "2024-01-04".to_string(), false);
    assert_eq!(t0.id, 0);
    assert_eq!(t1.id, 1);
    assert_eq!(t2.id, 2);
    assert_eq!(t3.id, 3);
}

#[test]
fn create_fills_every_field() {
    let mut store = TaskStore::new();
    let task = store.add_task(owner_a(), "buy milk".to_string(), "2024-05-05".to_string(), true);
    assert_eq!(task.id, 0);
    assert_eq!(task.description, "buy milk");
    assert!(!task.completed);
    assert!(task.important);
    assert_eq!(task.date_added, "2024-05-05");
    assert_eq!(task.importance_level, "High Priority");
    assert!(task.owner == owner_a());
}

#[test]
fn normal_priority_label_when_not_important() {
    let mut store = TaskStore::new();
    let task = store.add_task(owner_a(), "laundry".to_string(), "2024-05-06".to_string(), false);
    assert_eq!(task.importance_level, "Normal Priority");
}

#[test]
fn owner_isolation() {
    let mut store = TaskStore::new();
    let a = owner_a();
    let b = owner_b();
    let task = store.add_task(a.clone(), "private".to_string(), "2024-01-01".to_string(), true);

    assert!(store.get_task(&b, task.id).is_none());
    assert!(store.get_tasks(&b).is_empty());
    assert!(store.get_important_tasks(&b).is_empty());
    assert!(store.get_completed_tasks(&b).is_empty());
    assert!(!store.toggle_task_completion(&b, task.id));
    assert!(!store.toggle_task_importance(&b, task.id));
    assert!(!store.delete_task(&b, task.id));

    let mine = store.get_tasks(&a);
    assert_eq!(mine.len(), 1);
    assert_eq!(mine[0].id, task.id);
    assert!(!mine[0].completed);
    assert!(mine[0].important);
}

#[test]
fn toggle_completion_round_trip() {
    let mut store = TaskStore::new();
    let a = owner_a();
    let task = store.add_task(a.clone(), "water plants".to_string(), "2024-02-02".to_string(), false);
    assert!(store.toggle_task_completion(&a, task.id));
    assert!(store.get_task(&a, task.id).unwrap().completed);
    assert!(store.toggle_task_completion(&a, task.id));
    let back = store.get_task(&a, task.id).unwrap();
    assert!(!back.completed);
    assert_eq!(back.description, "water plants");
}

#[test]
fn toggle_importance_round_trip() {
    let mut store = TaskStore::new();
    let a = owner_a();
    let task = store.add_task(a.clone(), "call bob".to_string(), "2024-02-03".to_string(), true);
    assert!(store.toggle_task_importance(&a, task.id));
    let flipped = store.get_task(&a, task.id).unwrap();
    assert!(!flipped.important);
    assert_eq!(flipped.importance_level, "Normal Priority");
    assert!(store.toggle_task_importance(&a, task.id));
    let back = store.get_task(&a, task.id).unwrap();
    assert!(back.important);
    assert_eq!(back.importance_level, "High Priority");
}

#[test]
fn absent_id_is_a_no_op() {
    let mut store = TaskStore::new();
    let a = owner_a();
    store.add_task(a.clone(), "only one".to_string(), "2024-03-03".to_string(), false);
    assert!(!store.toggle_task_completion(&a, 7));
    assert!(!store.toggle_task_importance(&a, 7));
    assert!(!store.delete_task(&a, 7));
    assert!(store.get_task(&a, 7).is_none());
    let tasks = store.get_tasks(&a);
    assert_eq!(tasks.len(), 1);
    assert_eq!(tasks[0].id, 0);
    assert!(!tasks[0].completed);
    assert!(!tasks[0].important);
}

#[test]
fn filters_select_exactly_the_flagged_tasks() {
    let mut store = TaskStore::new();
    let a = owner_a();
    let t0 = store.add_task(a.clone(), "t0".to_string(), "d0".to_string(), true);
    let t1 = store.add_task(a.clone(), "t1".to_string(), "d1".to_string(), false);
    let t2 = store.add_task(a.clone(), "t2".to_string(), "d2".to_string(), true);
    let t3 = store.add_task(a.clone(), "t3".to_string(), "d3".to_string(), false);
    store.add_task(owner_b(), "other".to_string(), "d4".to_string(), true);
    assert!(store.toggle_task_completion(&a, t1.id));
    assert!(store.toggle_task_completion(&a, t2.id));

    let important: Vec<u64> = store.get_important_tasks(&a).iter().map(|t| t.id).collect();
    assert_eq!(important, vec![t0.id, t2.id]);

    let completed: Vec<u64> = store.get_completed_tasks(&a).iter().map(|t| t.id).collect();
    assert_eq!(completed, vec![t1.id, t2.id]);

    let all: Vec<u64> = store.get_tasks(&a).iter().map(|t| t.id).collect();
    assert_eq!(all, vec![t0.id, t1.id, t2.id, t3.id]);
}

#[test]
fn delete_keeps_other_tasks_and_ids() {
    let mut store = TaskStore::new();
    let a = owner_a();
    let t0 = store.add_task(a.clone(), "t0".to_string(), "d0".to_string(), false);
    let t1 = store.add_task(a.clone(), "t1".to_string(), "d1".to_string(), false);
    let t2 = store.add_task(a.clone(), "t2".to_string(), "d2".to_string(), false);
    assert!(store.delete_task(&a, t1.id));
    let left: Vec<u64> = store.get_tasks(&a).iter().map(|t| t.id).collect();
    assert_eq!(left, vec![t0.id, t2.id]);
    // the counter is not rolled back: the next task gets a fresh id
    let t3 = store.add_task(a.clone(), "t3".to_string(), "d3".to_string(), false);
    assert_eq!(t3.id, 3);
}

#[test]
fn init_resets_every_caller_and_the_counter() {
    let mut store = TaskStore::new();
    store.add_task(owner_a(), "a".to_string(), "d".to_string(), true);
    store.add_task(owner_b(), "b".to_string(), "d".to_string(), false);
    store.init();
    assert!(store.get_tasks(&owner_a()).is_empty());
    assert!(store.get_tasks(&owner_b()).is_empty());
    let fresh = store.add_task(owner_a(), "again".to_string(), "d".to_string(), false);
    assert_eq!(fresh.id, 0);
}

#[test]
fn init_is_idempotent() {
    let mut store = TaskStore::new();
    store.add_task(owner_a(), "a".to_string(), "d".to_string(), true);
    store.init();
    store.init();
    assert!(store.get_tasks(&owner_a()).is_empty());
    let fresh = store.add_task(owner_a(), "again".to_string(), "d".to_string(), false);
    assert_eq!(fresh.id, 0);
}

#[test]
fn end_to_end_scenario() {
    let mut store = TaskStore::new();
    let a = owner_a();
    let b = owner_b();

    let first = store.add_task(a.clone(), "buy milk".to_string(), "2024-06-01".to_string(), true);
    assert_eq!(first.id, 0);
    assert_eq!(first.description, "buy milk");
    assert!(!first.completed);
    assert!(first.important);
    assert!(first.owner == a);

    assert!(store.toggle_task_completion(&a, 0));
    assert!(store.get_task(&a, 0).unwrap().completed);

    let second = store.add_task(a.clone(), "call bob".to_string(), "2024-06-02".to_string(), false);
    assert_eq!(second.id, 1);

    let important: Vec<u64> = store.get_important_tasks(&a).iter().map(|t| t.id).collect();
    assert_eq!(important, vec![0]);

    assert!(store.get_task(&b, 0).is_none());

    assert!(store.delete_task(&a, 0));
    assert!(store.get_task(&a, 0).is_none());
    let rest: Vec<u64> = store.get_tasks(&a).iter().map(|t| t.id).collect();
    assert_eq!(rest, vec![1]);
}

#[test]
fn get_task_returns_a_copy_of_the_stored_task() {
    let mut store = TaskStore::new();
    let a = owner_a();
    let created = store.add_task(a.clone(), "read".to_string(), "2024-07-07".to_string(), false);
    let fetched = store.get_task(&a, created.id).unwrap();
    assert_eq!(fetched.id, created.id);
    assert_eq!(fetched.description, created.description);
    assert_eq!(fetched.date_added, created.date_added);
    assert_eq!(fetched.importance_level, created.importance_level);
    assert_eq!(fetched.completed, created.completed);
    assert_eq!(fetched.important, created.important);
    assert!(fetched.owner == created.owner);
}
