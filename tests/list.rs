use todomvc::route::{item_suffix, Route};
use todomvc::todo::{Todo, TodoList};

fn sample() -> TodoList {
    let mut list = TodoList::new();
    list.push_new(1, "a".to_string());
    list.push_new(2, "b".to_string());
    list.push_new(3, "c".to_string());
    list.push_new(4, "d".to_string());
    list.toggle(2);
    list.toggle(4);
    list
}

fn ids_of(todos: &[Todo]) -> Vec<u128> {
    todos.iter().map(|t| t.id).collect()
}

#[test]
fn filters_partition_the_list() {
    let list = sample();
    let all = list.filtered(Route::All);
    let active = list.filtered(Route::Active);
    let completed = list.filtered(Route::Completed);
    assert_eq!(ids_of(&all), vec![1, 2, 3, 4]);
    assert_eq!(ids_of(&active), vec![1, 3]);
    assert_eq!(ids_of(&completed), vec![2, 4]);
    assert_eq!(active.len() + completed.len(), all.len());
    assert_eq!(ids_of(&list.filtered(Route::NotFound)), vec![1, 2, 3, 4]);
}

#[test]
fn filters_on_empty_list() {
    let list = TodoList::new();
    assert!(list.filtered(Route::All).is_empty());
    assert!(list.filtered(Route::Active).is_empty());
    assert!(list.filtered(Route::Completed).is_empty());
    assert!(list.all_completed());
    assert_eq!(list.active_count(), 0);
    assert_eq!(list.completed_count(), 0);
}

#[test]
fn counts() {
    let list = sample();
    assert_eq!(list.active_count(), 2);
    assert_eq!(list.completed_count(), 2);
    assert!(!list.all_completed());
}

#[test]
fn find_and_contains() {
    let list = sample();
    assert_eq!(list.find(3), Some(2));
    assert_eq!(list.find(9), None);
    assert!(list.contains(1));
    assert!(!list.contains(0));
}

#[test]
fn next_id_rules() {
    let list = sample();
    assert_eq!(list.next_id(10), Some(10));
    assert_eq!(list.next_id(4), Some(5));
    assert_eq!(list.next_id(0), Some(5));
}

#[test]
fn insert_places_by_id() {
    let mut list = TodoList::new();
    list.insert(Todo { id: 5, title: "five".to_string(), completed: false });
    list.insert(Todo { id: 2, title: "two".to_string(), completed: false });
    list.insert(Todo { id: 9, title: "nine".to_string(), completed: true });
    list.insert(Todo { id: 5, title: "FIVE".to_string(), completed: true });
    let ids: Vec<u128> = (0..list.len()).map(|i| list.get(i).id).collect();
    assert_eq!(ids, vec![2, 5, 9]);
    assert_eq!(list.get(1).title, "FIVE");
    assert!(list.get(1).completed);
    assert_eq!(list.next_id(1), Some(10));
}

#[test]
fn set_title_and_remove() {
    let mut list = sample();
    list.set_title(3, "C".to_string());
    assert_eq!(list.get(2).title, "C");
    list.set_title(42, "nothing".to_string());
    list.remove(1);
    list.remove(42);
    let ids: Vec<u128> = (0..list.len()).map(|i| list.get(i).id).collect();
    assert_eq!(ids, vec![2, 3, 4]);
}

#[test]
fn set_all_completed_and_clear() {
    let mut list = sample();
    list.set_all_completed(true);
    assert!(list.all_completed());
    list.set_all_completed(false);
    assert_eq!(list.active_count(), 4);
    list.toggle(1);
    list.clear_completed();
    assert_eq!(list.len(), 3);
}

#[test]
fn item_suffix_plural() {
    assert_eq!(item_suffix(0), "s");
    assert_eq!(item_suffix(1), "");
    assert_eq!(item_suffix(2), "s");
}

#[test]
fn todo_new_and_duplicate() {
    let t = Todo::new(7, "seven".to_string());
    assert!(!t.completed);
    let d = t.duplicate();
    assert_eq!(d.id, 7);
    assert_eq!(d.title, "seven");
}
