use todomvc::model::{Effects, Focus, Model, Msg};
use todomvc::route::Route;
use todomvc::todo::Todo;

fn titles(model: &Model) -> Vec<String> {
    let list = model.todos();
    (0..list.len()).map(|i| list.get(i).title.clone()).collect()
}

fn completion(model: &Model) -> Vec<bool> {
    let list = model.todos();
    (0..list.len()).map(|i| list.get(i).completed).collect()
}

fn ids(model: &Model) -> Vec<u128> {
    let list = model.todos();
    (0..list.len()).map(|i| list.get(i).id).collect()
}

fn create(model: &mut Model, title: &str) -> Effects {
    model.update(Msg::NewTodoTitleChanged(title.to_string()));
    model.update(Msg::CreateTodo)
}

#[test]
fn end_to_end_scenario() {
    let mut model = Model::new();
    let effects = create(&mut model, "Buy milk");
    assert_eq!(effects, Effects { persist: true, focus: None });
    assert_eq!(titles(&model), vec!["Buy milk".to_string()]);
    assert_eq!(completion(&model), vec![false]);
    assert_eq!(model.new_todo_title(), "");
    let id1 = ids(&model)[0];

    model.update(Msg::ToggleTodo(id1));
    assert_eq!(completion(&model), vec![true]);

    let effects = create(&mut model, "");
    assert_eq!(effects, Effects { persist: true, focus: None });
    assert_eq!(model.todos().len(), 1);
    assert_eq!(ids(&model), vec![id1]);

    model.update(Msg::ClearCompleted);
    assert!(model.todos().is_empty());
}

#[test]
fn create_trims_the_draft() {
    let mut model = Model::new();
    create(&mut model, "  Walk the dog \t");
    assert_eq!(titles(&model), vec!["Walk the dog".to_string()]);
    assert_eq!(model.new_todo_title(), "");
}

#[test]
fn create_with_blank_draft_keeps_draft_and_list() {
    let mut model = Model::new();
    create(&mut model, "   ");
    assert!(model.todos().is_empty());
    assert_eq!(model.new_todo_title(), "   ");
}

#[test]
fn created_ids_are_distinct_and_increasing() {
    let mut model = Model::new();
    for title in ["a", "b", "c", "d", "e"] {
        create(&mut model, title);
    }
    let ids = ids(&model);
    assert_eq!(ids.len(), 5);
    for w in ids.windows(2) {
        assert!(w[0] < w[1]);
    }
    assert_eq!(titles(&model), vec!["a", "b", "c", "d", "e"]);
}

#[test]
fn offered_id_not_above_last_is_replaced_by_next() {
    let mut model = Model::new();
    model.set_new_todo_title("first".to_string());
    model.create_todo_with_id(100);
    model.set_new_todo_title("second".to_string());
    model.create_todo_with_id(40);
    model.set_new_todo_title("third".to_string());
    model.create_todo_with_id(500);
    assert_eq!(ids(&model), vec![100, 101, 500]);
}

#[test]
fn removed_id_is_never_reused() {
    let mut model = Model::new();
    model.set_new_todo_title("first".to_string());
    model.create_todo_with_id(7);
    model.remove_todo(7);
    model.set_new_todo_title("second".to_string());
    model.create_todo_with_id(7);
    assert_eq!(ids(&model), vec![8]);
}

#[test]
fn no_id_left_means_no_creation() {
    let mut model = Model::new();
    model.set_new_todo_title("last".to_string());
    model.create_todo_with_id(u128::MAX);
    model.set_new_todo_title("one more".to_string());
    model.create_todo_with_id(3);
    assert_eq!(ids(&model), vec![u128::MAX]);
    assert_eq!(model.new_todo_title(), "one more");
}

#[test]
fn toggle_twice_restores() {
    let mut model = Model::new();
    model.set_new_todo_title("x".to_string());
    model.create_todo_with_id(1);
    model.toggle_todo(1);
    assert_eq!(completion(&model), vec![true]);
    model.toggle_todo(1);
    assert_eq!(completion(&model), vec![false]);
}

#[test]
fn toggle_missing_id_is_noop() {
    let mut model = Model::new();
    model.set_new_todo_title("x".to_string());
    model.create_todo_with_id(1);
    let effects = model.update(Msg::ToggleTodo(99));
    assert_eq!(effects, Effects { persist: true, focus: None });
    assert_eq!(completion(&model), vec![false]);
    assert_eq!(ids(&model), vec![1]);
}

#[test]
fn check_all_twice_from_mixed() {
    let mut model = Model::new();
    model.set_new_todo_title("A".to_string());
    model.create_todo_with_id(1);
    model.set_new_todo_title("B".to_string());
    model.create_todo_with_id(2);
    model.toggle_todo(2);
    assert_eq!(completion(&model), vec![false, true]);
    model.update(Msg::CheckOrUncheckAll);
    assert_eq!(completion(&model), vec![true, true]);
    model.update(Msg::CheckOrUncheckAll);
    assert_eq!(completion(&model), vec![false, false]);
}

#[test]
fn check_all_twice_from_all_completed() {
    let mut model = Model::new();
    model.set_new_todo_title("A".to_string());
    model.create_todo_with_id(1);
    model.set_new_todo_title("B".to_string());
    model.create_todo_with_id(2);
    model.toggle_todo(1);
    model.toggle_todo(2);
    model.check_or_uncheck_all();
    assert_eq!(completion(&model), vec![false, false]);
    model.check_or_uncheck_all();
    assert_eq!(completion(&model), vec![true, true]);
}

#[test]
fn check_all_on_empty_list() {
    let mut model = Model::new();
    model.check_or_uncheck_all();
    assert!(model.todos().is_empty());
}

#[test]
fn clear_completed_keeps_active_in_order() {
    let mut model = Model::new();
    for (i, title) in ["a", "b", "c", "d"].iter().enumerate() {
        model.set_new_todo_title(title.to_string());
        model.create_todo_with_id(i as u128 + 1);
    }
    model.toggle_todo(1);
    model.toggle_todo(3);
    let active_before = model.todos().active_count();
    model.update(Msg::ClearCompleted);
    assert_eq!(titles(&model), vec!["b", "d"]);
    assert_eq!(model.todos().active_count(), active_before);
    assert_eq!(model.todos().completed_count(), 0);
}

#[test]
fn clear_completed_closes_session_on_removed_record() {
    let mut model = Model::new();
    model.set_new_todo_title("a".to_string());
    model.create_todo_with_id(1);
    model.set_new_todo_title("b".to_string());
    model.create_todo_with_id(2);
    model.toggle_todo(1);
    model.select_todo(Some(1));
    model.clear_completed();
    assert!(model.selected_todo().is_none());

    model.select_todo(Some(2));
    model.clear_completed();
    assert_eq!(model.selected_todo().map(|s| s.id), Some(2));
}

#[test]
fn edit_round_trip() {
    let mut model = Model::new();
    model.set_new_todo_title("Buy milk".to_string());
    model.create_todo_with_id(10);
    let effects = model.update(Msg::SelectTodo(Some(10)));
    assert_eq!(effects, Effects { persist: false, focus: Some(Focus { id: 10, cursor: 8 }) });
    assert_eq!(model.selected_todo().map(|s| s.title.clone()), Some("Buy milk".to_string()));
    let effects = model.update(Msg::SelectedTodoTitleChanged("Buy oat milk".to_string()));
    assert_eq!(effects, Effects { persist: false, focus: None });
    let effects = model.update(Msg::SaveSelectedTodo);
    assert_eq!(effects, Effects { persist: true, focus: None });
    assert_eq!(titles(&model), vec!["Buy oat milk".to_string()]);
    assert!(model.selected_todo().is_none());
}

#[test]
fn save_keeps_untrimmed_and_empty_titles() {
    let mut model = Model::new();
    model.set_new_todo_title("a".to_string());
    model.create_todo_with_id(1);
    model.select_todo(Some(1));
    model.set_selected_todo_title("".to_string());
    model.save_selected_todo();
    assert_eq!(titles(&model), vec!["".to_string()]);
}

#[test]
fn remove_between_select_and_save() {
    let mut model = Model::new();
    model.set_new_todo_title("a".to_string());
    model.create_todo_with_id(1);
    model.set_new_todo_title("b".to_string());
    model.create_todo_with_id(2);
    model.select_todo(Some(1));
    model.set_selected_todo_title("changed".to_string());
    model.update(Msg::RemoveTodo(1));
    assert!(model.selected_todo().is_none());
    model.update(Msg::SaveSelectedTodo);
    assert_eq!(titles(&model), vec!["b".to_string()]);
}

#[test]
fn remove_other_record_keeps_session() {
    let mut model = Model::new();
    model.set_new_todo_title("a".to_string());
    model.create_todo_with_id(1);
    model.set_new_todo_title("b".to_string());
    model.create_todo_with_id(2);
    model.select_todo(Some(1));
    model.remove_todo(2);
    assert_eq!(model.selected_todo().map(|s| s.id), Some(1));
}

#[test]
fn select_missing_record_changes_nothing() {
    let mut model = Model::new();
    model.set_new_todo_title("a".to_string());
    model.create_todo_with_id(1);
    model.select_todo(Some(1));
    let effects = model.update(Msg::SelectTodo(Some(5)));
    assert_eq!(effects, Effects { persist: false, focus: None });
    assert_eq!(model.selected_todo().map(|s| s.id), Some(1));
    model.update(Msg::SelectTodo(None));
    assert!(model.selected_todo().is_none());
}

#[test]
fn editing_title_without_session_is_ignored() {
    let mut model = Model::new();
    model.update(Msg::SelectedTodoTitleChanged("x".to_string()));
    assert!(model.selected_todo().is_none());
    let effects = model.update(Msg::SaveSelectedTodo);
    assert_eq!(effects, Effects { persist: true, focus: None });
    assert!(model.todos().is_empty());
}

#[test]
fn focus_cursor_counts_bytes() {
    let mut model = Model::new();
    model.set_new_todo_title("café".to_string());
    model.create_todo_with_id(3);
    let focus = model.select_todo(Some(3));
    assert_eq!(focus, Some(Focus { id: 3, cursor: 5 }));
}

#[test]
fn draft_change_is_persisted() {
    let mut model = Model::new();
    let effects = model.update(Msg::NewTodoTitleChanged("typing".to_string()));
    assert_eq!(effects, Effects { persist: true, focus: None });
    assert_eq!(model.new_todo_title(), "typing");
}

#[test]
fn from_stored_records() {
    let stored = vec![
        Todo { id: 30, title: "c".to_string(), completed: true },
        Todo { id: 10, title: "a".to_string(), completed: false },
        Todo { id: 20, title: "b".to_string(), completed: false },
        Todo { id: 10, title: "a2".to_string(), completed: true },
    ];
    let mut model = Model::from_todos(&stored);
    assert_eq!(ids(&model), vec![10, 20, 30]);
    assert_eq!(titles(&model), vec!["a2", "b", "c"]);
    assert_eq!(completion(&model), vec![true, false, true]);
    model.set_new_todo_title("d".to_string());
    model.create_todo_with_id(25);
    assert_eq!(ids(&model), vec![10, 20, 30, 31]);
    assert_eq!(model.todos().filtered(Route::Active).len(), 2);
}
