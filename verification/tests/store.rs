use taskcrab::store::{sort_tasks, TaskStore};
use taskcrab::task::Task;

fn names(store: &TaskStore) -> Vec<String> {
    store.tasks().iter().map(|task| task.name.clone()).collect()
}

fn priorities(tasks: &[Task]) -> Vec<u8> {
    tasks.iter().map(|task| task.priority).collect()
}

fn task(id: u64, name: &str, priority: u8) -> Task {
    Task::new(id, name.to_string(), priority, (0, 0, 0))
}

#[test]
fn new_store_is_empty() {
    let store = TaskStore::new();
    assert_eq!(store.len(), 0);
    assert!(store.is_empty());
    assert!(store.tasks().is_empty());
    assert!(store.get(0).is_none());
}

#[test]
fn add_returns_the_task_with_its_position_as_id() {
    let mut store = TaskStore::new();
    let first = store.add("Buy milk".to_string(), 3, (0, 0, 0));
    assert_eq!(first.id, 0);
    assert_eq!(first.name, "Buy milk");
    assert_eq!(first.priority, 3);
    assert_eq!(first.due_date, (0, 0, 0));
    let second = store.add("Pay rent".to_string(), 5, (4, 1, 2025));
    assert_eq!(second.id, 1);
    assert_eq!(second.name, "Pay rent");
    assert_eq!(second.priority, 5);
    assert_eq!(second.due_date, (4, 1, 2025));
    assert_eq!(store.len(), 2);
}

#[test]
fn add_keeps_descending_priority_after_each_call() {
    let mut store = TaskStore::new();
    let given: [u8; 8] = [3, 1, 5, 2, 5, 4, 1, 3];
    for (count, priority) in given.iter().enumerate() {
        store.add(format!("task {}", count), *priority, (0, 0, 0));
        let seen = priorities(store.tasks());
        assert_eq!(seen.len(), count + 1);
        assert!(seen.windows(2).all(|pair| pair[0] >= pair[1]));
    }
    assert_eq!(priorities(store.tasks()), vec![5, 5, 4, 3, 3, 2, 1, 1]);
}

#[test]
fn add_keeps_insertion_order_among_equal_priorities() {
    let mut store = TaskStore::new();
    store.add("a".to_string(), 3, (0, 0, 0));
    store.add("b".to_string(), 5, (0, 0, 0));
    store.add("c".to_string(), 3, (0, 0, 0));
    store.add("d".to_string(), 5, (0, 0, 0));
    store.add("e".to_string(), 1, (0, 0, 0));
    store.add("f".to_string(), 3, (0, 0, 0));
    assert_eq!(names(&store), vec!["b", "d", "a", "c", "f", "e"]);
    let ids: Vec<u64> = store.tasks().iter().map(|task| task.id).collect();
    assert_eq!(ids, vec![1, 3, 0, 2, 5, 4]);
}

#[test]
fn add_accepts_duplicate_names() {
    let mut store = TaskStore::new();
    store.add("same".to_string(), 2, (0, 0, 0));
    store.add("same".to_string(), 2, (1, 2, 3));
    assert_eq!(names(&store), vec!["same", "same"]);
    assert_eq!(store.tasks()[0].due_date, (0, 0, 0));
    assert_eq!(store.tasks()[1].due_date, (1, 2, 3));
}

#[test]
fn ids_repeat_after_a_delete() {
    let mut store = TaskStore::new();
    store.add("a".to_string(), 3, (0, 0, 0));
    store.add("b".to_string(), 3, (0, 0, 0));
    assert!(store.delete(0));
    let again = store.add("c".to_string(), 3, (0, 0, 0));
    assert_eq!(again.id, 1);
    let ids: Vec<u64> = store.tasks().iter().map(|task| task.id).collect();
    assert_eq!(ids, vec![1, 1]);
}

#[test]
fn delete_in_range_removes_exactly_that_task() {
    let mut store = TaskStore::new();
    store.add("low".to_string(), 1, (0, 0, 0));
    store.add("high".to_string(), 5, (0, 0, 0));
    store.add("mid".to_string(), 3, (0, 0, 0));
    assert_eq!(names(&store), vec!["high", "mid", "low"]);
    assert!(store.delete(1));
    assert_eq!(store.len(), 2);
    assert_eq!(names(&store), vec!["high", "low"]);
    assert!(store.delete(1));
    assert_eq!(names(&store), vec!["high"]);
    assert!(store.delete(0));
    assert!(store.is_empty());
}

#[test]
fn delete_out_of_range_changes_nothing() {
    let mut store = TaskStore::new();
    assert!(!store.delete(0));
    store.add("a".to_string(), 2, (0, 0, 0));
    store.add("b".to_string(), 4, (0, 0, 0));
    assert!(!store.delete(2));
    assert!(!store.delete(3));
    assert!(!store.delete(usize::MAX));
    assert_eq!(store.len(), 2);
    assert_eq!(names(&store), vec!["b", "a"]);
}

#[test]
fn clear_empties_any_store() {
    let mut store = TaskStore::new();
    store.clear();
    assert!(store.is_empty());
    store.add("a".to_string(), 2, (0, 0, 0));
    store.add("b".to_string(), 4, (0, 0, 0));
    store.clear();
    assert_eq!(store.len(), 0);
    assert!(store.tasks().is_empty());
    let next = store.add("c".to_string(), 1, (0, 0, 0));
    assert_eq!(next.id, 0);
}

#[test]
fn get_gives_the_task_at_a_position() {
    let mut store = TaskStore::new();
    store.add("a".to_string(), 2, (0, 0, 0));
    store.add("b".to_string(), 4, (7, 8, 9));
    let first = store.get(0).unwrap();
    assert_eq!(first.name, "b");
    assert_eq!(first.due_date, (7, 8, 9));
    assert_eq!(store.get(1).unwrap().name, "a");
    assert!(store.get(2).is_none());
}

#[test]
fn scenario_add_add_delete_clear() {
    let mut store = TaskStore::new();
    assert!(store.is_empty());
    store.add("Buy milk".to_string(), 3, (0, 0, 0));
    store.add("Pay rent".to_string(), 5, (4, 1, 2025));
    assert_eq!(names(&store), vec!["Pay rent", "Buy milk"]);
    assert!(store.delete(0));
    assert_eq!(names(&store), vec!["Buy milk"]);
    store.clear();
    assert!(names(&store).is_empty());
}

#[test]
fn sort_tasks_orders_by_descending_priority_and_is_stable() {
    let mut tasks = vec![
        task(0, "a", 2),
        task(1, "b", 5),
        task(2, "c", 2),
        task(3, "d", 1),
        task(4, "e", 5),
        task(5, "f", 3),
    ];
    sort_tasks(&mut tasks);
    let seen: Vec<(&str, u8, u64)> =
        tasks.iter().map(|t| (t.name.as_str(), t.priority, t.id)).collect();
    assert_eq!(
        seen,
        vec![("b", 5, 1), ("e", 5, 4), ("f", 3, 5), ("a", 2, 0), ("c", 2, 2), ("d", 1, 3)]
    );
}

#[test]
fn sort_tasks_agrees_with_the_standard_stable_sort() {
    let mut seed: u32 = 12345;
    for round in 0..40usize {
        let mut tasks = Vec::new();
        for i in 0..(round % 13) {
            seed = seed.wrapping_mul(1103515245).wrapping_add(12345);
            let priority = ((seed >> 16) % 7) as u8;
            tasks.push(task(i as u64, &format!("t{}", i), priority));
        }
        let mut expected = tasks.clone();
        expected.sort_by(|a, b| b.priority.cmp(&a.priority));
        sort_tasks(&mut tasks);
        let got: Vec<(u64, u8)> = tasks.iter().map(|t| (t.id, t.priority)).collect();
        let want: Vec<(u64, u8)> = expected.iter().map(|t| (t.id, t.priority)).collect();
        assert_eq!(got, want);
    }
}

#[test]
fn sort_tasks_leaves_empty_and_sorted_lists_alone() {
    let mut none: Vec<Task> = Vec::new();
    sort_tasks(&mut none);
    assert!(none.is_empty());
    let mut sorted = vec![task(0, "a", 5), task(1, "b", 5), task(2, "c", 1)];
    sort_tasks(&mut sorted);
    let ids: Vec<u64> = sorted.iter().map(|t| t.id).collect();
    assert_eq!(ids, vec![0, 1, 2]);
}

#[test]
fn sort_tasks_takes_any_priority() {
    let mut tasks = vec![task(0, "a", 0), task(1, "b", 255), task(2, "c", 9)];
    sort_tasks(&mut tasks);
    assert_eq!(priorities(&tasks), vec![255, 9, 0]);
}

#[test]
fn from_tasks_orders_what_was_read_and_numbers_it_anew() {
    let read = vec![task(7, "a", 1), task(7, "b", 4), task(9, "c", 4), task(0, "d", 2)];
    let store = TaskStore::from_tasks(read);
    let seen: Vec<(&str, u8, u64)> =
        store.tasks().iter().map(|t| (t.name.as_str(), t.priority, t.id)).collect();
    assert_eq!(seen, vec![("b", 4, 1), ("c", 4, 2), ("d", 2, 3), ("a", 1, 0)]);
}

#[test]
fn from_tasks_of_nothing_is_empty() {
    let store = TaskStore::from_tasks(Vec::new());
    assert!(store.is_empty());
}
