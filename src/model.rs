//! The application state and the reducer that changes it one message at a
//! time.

use vstd::prelude::*;
use vstd::utf8::encode_utf8;

use crate::ids::generate_ulid;
use crate::text::{trim_of, trimmed};
use crate::todo::{
    active_of, all_completed, all_set_to, completed_of, has_id, ids_increasing, inserted_all,
    issue_id, retitled, toggled, without, Todo, TodoList, TodoView,
};

verus! {

/// A message: one discrete request to change the state.
pub enum Msg {
    /// The draft title of the next record changed.
    NewTodoTitleChanged(String),
    /// Create a record from the draft title.
    CreateTodo,
    /// Flip a record between completed and active.
    ToggleTodo(u128),
    /// Remove a record.
    RemoveTodo(u128),
    /// Complete every record, or reopen them all when all are completed.
    CheckOrUncheckAll,
    /// Remove every completed record.
    ClearCompleted,
    /// Open an editing session on a record, or close the open one.
    SelectTodo(Option<u128>),
    /// The working title of the editing session changed.
    SelectedTodoTitleChanged(String),
    /// Write the working title into its record and close the session.
    SaveSelectedTodo,
}

/// The record being edited and its working title.
pub struct SelectedTodo {
    pub id: u128,
    pub title: String,
}

/// The mathematical value of a [`SelectedTodo`].
pub struct EditView {
    pub id: u128,
    pub title: Seq<char>,
}

impl View for SelectedTodo {
    type V = EditView;

    open spec fn view(&self) -> EditView {
        EditView { id: self.id, title: self.title@ }
    }
}

/// A request to focus the editing input of record `id` and put the cursor at
/// byte offset `cursor`, the end of its title.
#[derive(Clone, Copy, Debug, PartialEq, Eq, Structural)]
pub struct Focus {
    pub id: u128,
    pub cursor: usize,
}

/// What the host should do once a message has been handled.
#[derive(Clone, Copy, Debug, PartialEq, Eq, Structural)]
pub struct Effects {
    /// Save the whole list of records.
    pub persist: bool,
    /// Focus an editing input.
    pub focus: Option<Focus>,
}

/// The mathematical value of a [`Model`].
pub struct ModelView {
    pub todos: Seq<TodoView>,
    pub last_id: u128,
    pub draft: Seq<char>,
    pub editing: Option<EditView>,
}

/// The application state: the records, the draft title of the next record,
/// and at most one editing session.
pub struct Model {
    todos: TodoList,
    new_todo_title: String,
    selected_todo: Option<SelectedTodo>,
}

impl View for Model {
    type V = ModelView;

    closed spec fn view(&self) -> ModelView {
        ModelView {
            todos: self.todos@,
            last_id: self.todos.last_issued(),
            draft: self.new_todo_title@,
            editing: match self.selected_todo {
                Some(t) => Some(t@),
                None => None,
            },
        }
    }
}

/// The position of the record `id` in `s`.
pub open spec fn position_of(s: Seq<TodoView>, id: u128) -> int {
    choose|i: int| 0 <= i < s.len() && s[i].id == id
}

/// The title of the record `id` in `s`.
pub open spec fn title_of(s: Seq<TodoView>, id: u128) -> Seq<char> {
    s[position_of(s, id)].title
}

/// Ids increase along the records and none exceeds the last issued id.
pub open spec fn model_wf(m: ModelView) -> bool {
    &&& ids_increasing(m.todos)
    &&& forall|i: int| 0 <= i < m.todos.len() ==> m.todos[i].id <= m.last_id
}

/// The state with its draft title replaced.
pub open spec fn set_draft_spec(m: ModelView, title: Seq<char>) -> ModelView {
    ModelView { draft: title, ..m }
}

/// The state after creating a record from the draft title, when the
/// generator offers the id `candidate`. A draft that is empty once trimmed
/// changes nothing; else the trimmed draft becomes a new active record at the
/// end of the list, under the id `issue_id(last_id, candidate)`, and the draft
/// is cleared.
pub open spec fn create_spec(m: ModelView, candidate: u128) -> ModelView {
    let title = trim_of(m.draft);
    if title.len() == 0 {
        m
    } else {
        match issue_id(m.last_id, candidate) {
            Some(id) => ModelView {
                todos: m.todos.push(TodoView { id, title, completed: false }),
                last_id: id,
                draft: Seq::<char>::empty(),
                editing: m.editing,
            },
            None => m,
        }
    }
}

/// The state after flipping the record `id`; nothing changes when it is
/// missing.
pub open spec fn toggle_spec(m: ModelView, id: u128) -> ModelView {
    ModelView { todos: toggled(m.todos, id), ..m }
}

/// The state after removing the record `id`; an editing session on it is
/// closed.
pub open spec fn remove_spec(m: ModelView, id: u128) -> ModelView {
    ModelView {
        todos: without(m.todos, id),
        editing: match m.editing {
            Some(e) => if e.id == id {
                None
            } else {
                m.editing
            },
            None => None,
        },
        ..m
    }
}

/// The state after the bulk toggle: when every record is completed they all
/// become active, else they all become completed.
pub open spec fn check_all_spec(m: ModelView) -> ModelView {
    ModelView { todos: all_set_to(m.todos, !all_completed(m.todos)), ..m }
}

/// The state after removing the completed records; an editing session on a
/// removed record is closed.
pub open spec fn clear_completed_spec(m: ModelView) -> ModelView {
    ModelView {
        todos: active_of(m.todos),
        editing: match m.editing {
            Some(e) => if has_id(completed_of(m.todos), e.id) {
                None
            } else {
                m.editing
            },
            None => None,
        },
        ..m
    }
}

/// The state after selecting: `Some(id)` of a record that is there opens an
/// editing session on it with its current title; `Some(id)` of a missing
/// record changes nothing; `None` closes the session.
pub open spec fn select_spec(m: ModelView, id: Option<u128>) -> ModelView {
    match id {
        Some(id) => if has_id(m.todos, id) {
            ModelView { editing: Some(EditView { id, title: title_of(m.todos, id) }), ..m }
        } else {
            m
        },
        None => ModelView { editing: None, ..m },
    }
}

/// The state with the working title of the editing session replaced; nothing
/// changes without a session.
pub open spec fn set_editing_title_spec(m: ModelView, title: Seq<char>) -> ModelView {
    match m.editing {
        Some(e) => ModelView { editing: Some(EditView { id: e.id, title }), ..m },
        None => m,
    }
}

/// The state after saving: the working title, as it is, becomes the title of
/// the edited record if it is still there, and the session closes. Nothing
/// changes without a session.
pub open spec fn save_spec(m: ModelView) -> ModelView {
    match m.editing {
        Some(e) => ModelView { todos: retitled(m.todos, e.id, e.title), editing: None, ..m },
        None => m,
    }
}

/// The state after handling `msg`, when the id generator offers `candidate`.
pub open spec fn update_spec(m: ModelView, msg: Msg, candidate: u128) -> ModelView {
    match msg {
        Msg::NewTodoTitleChanged(title) => set_draft_spec(m, title@),
        Msg::CreateTodo => create_spec(m, candidate),
        Msg::ToggleTodo(id) => toggle_spec(m, id),
        Msg::RemoveTodo(id) => remove_spec(m, id),
        Msg::CheckOrUncheckAll => check_all_spec(m),
        Msg::ClearCompleted => clear_completed_spec(m),
        Msg::SelectTodo(id) => select_spec(m, id),
        Msg::SelectedTodoTitleChanged(title) => set_editing_title_spec(m, title@),
        Msg::SaveSelectedTodo => save_spec(m),
    }
}

/// The focus request that selecting `id` makes: the record's editing input,
/// with the cursor after the last byte of its title.
pub open spec fn focus_spec(m: ModelView, id: Option<u128>) -> Option<Focus> {
    match id {
        Some(id) => if has_id(m.todos, id) {
            Some(Focus { id, cursor: encode_utf8(title_of(m.todos, id)).len() as usize })
        } else {
            None
        },
        None => None,
    }
}

/// The effects of handling `msg`: every message but those of the editing
/// session's selection and working title asks to persist the records; opening
/// a session asks to focus its input.
pub open spec fn effects_spec(m: ModelView, msg: Msg) -> Effects {
    match msg {
        Msg::SelectTodo(id) => Effects { persist: false, focus: focus_spec(m, id) },
        Msg::SelectedTodoTitleChanged(_) => Effects { persist: false, focus: None },
        _ => Effects { persist: true, focus: None },
    }
}

impl Model {
    /// Well formed: ids increase along the records and none exceeds the last
    /// issued id.
    pub open spec fn wf(&self) -> bool {
        model_wf(self@)
    }

    /// The empty state: no record, an empty draft, no editing session.
    pub fn new() -> (r: Model)
        ensures
            r.wf(),
            r@ == (ModelView {
                todos: Seq::<TodoView>::empty(),
                last_id: 0,
                draft: Seq::<char>::empty(),
                editing: None,
            }),
    {
        Model { todos: TodoList::new(), new_todo_title: String::new(), selected_todo: None }
    }

    /// The state at start-up, from the records that were stored: each is put
    /// in its place by id, a later one replacing an earlier one with the same
    /// id. The draft is empty and no session is open.
    pub fn from_todos(todos: &Vec<Todo>) -> (r: Model)
        ensures
            r.wf(),
            r@.todos == inserted_all(todos@.map_values(|t: Todo| t@)),
            r@.draft == Seq::<char>::empty(),
            r@.editing == None::<EditView>,
    {
        Model {
            todos: TodoList::from_todos(todos),
            new_todo_title: String::new(),
            selected_todo: None,
        }
    }

    /// The records.
    pub fn todos(&self) -> (r: &TodoList)
        ensures
            r@ == self@.todos,
            r.last_issued() == self@.last_id,
            self.wf() ==> r.wf(),
    {
        &self.todos
    }

    /// The draft title of the next record.
    pub fn new_todo_title(&self) -> (r: &str)
        ensures
            r@ == self@.draft,
    {
        self.new_todo_title.as_str()
    }

    /// The editing session, if one is open.
    pub fn selected_todo(&self) -> (r: Option<&SelectedTodo>)
        ensures
            match r {
                Some(t) => self@.editing == Some(t@),
                None => self@.editing == None::<EditView>,
            },
    {
        self.selected_todo.as_ref()
    }

    /// Replaces the draft title of the next record.
    pub fn set_new_todo_title(&mut self, title: String)
        requires
            old(self).wf(),
        ensures
            final(self).wf(),
            final(self)@ == set_draft_spec(old(self)@, title@),
    {
        self.new_todo_title = title;
    }

    /// Creates a record from the draft title, with the id that
    /// `issue_id(last_id, candidate)` gives (see [`create_spec`]).
    pub fn create_todo_with_id(&mut self, candidate: u128)
        requires
            old(self).wf(),
        ensures
            final(self).wf(),
            final(self)@ == create_spec(old(self)@, candidate),
    {
        let title = trimmed(self.new_todo_title.as_str());
        if !title.as_str().is_empty() {
            let created = self.todos.push_new(candidate, title);
            if created.is_some() {
                self.new_todo_title = String::new();
            }
        }
    }

    /// Flips the record `id` between completed and active.
    pub fn toggle_todo(&mut self, id: u128)
        requires
            old(self).wf(),
        ensures
            final(self).wf(),
            final(self)@ == toggle_spec(old(self)@, id),
    {
        self.todos.toggle(id);
    }

    /// Removes the record `id`, and closes an editing session on it.
    pub fn remove_todo(&mut self, id: u128)
        requires
            old(self).wf(),
        ensures
            final(self).wf(),
            final(self)@ == remove_spec(old(self)@, id),
    {
        self.todos.remove(id);
        let editing_it = match &self.selected_todo {
            Some(t) => t.id == id,
            None => false,
        };
        if editing_it {
            self.selected_todo = None;
        }
    }

    /// Completes every record, or reopens them all when all are completed.
    /// The target is decided once, from the list before the change.
    pub fn check_or_uncheck_all(&mut self)
        requires
            old(self).wf(),
        ensures
            final(self).wf(),
            final(self)@ == check_all_spec(old(self)@),
    {
        let all_checked = self.todos.all_completed();
        self.todos.set_all_completed(!all_checked);
    }

    /// Removes every completed record, and closes an editing session on one
    /// of them.
    pub fn clear_completed(&mut self)
        requires
            old(self).wf(),
        ensures
            final(self).wf(),
            final(self)@ == clear_completed_spec(old(self)@),
    {
        let closes = match &self.selected_todo {
            Some(t) => match self.todos.find(t.id) {
                Some(i) => self.todos.get(i).completed,
                None => false,
            },
            None => false,
        };
        proof {
            if let Some(e) = old(self)@.editing {
                lemma_completed_has_id(old(self)@.todos, e.id);
            }
        }
        self.todos.clear_completed();
        if closes {
            self.selected_todo = None;
        }
    }

    /// Opens an editing session on the record `id` with its current title and
    /// returns the request to focus its input; `None` closes the session.
    /// Selecting a missing record changes nothing.
    pub fn select_todo(&mut self, id: Option<u128>) -> (r: Option<Focus>)
        requires
            old(self).wf(),
        ensures
            final(self).wf(),
            final(self)@ == select_spec(old(self)@, id),
            r == focus_spec(old(self)@, id),
    {
        match id {
            Some(id) => match self.todos.find(id) {
                Some(i) => {
                    let todo = self.todos.get(i);
                    let title = todo.title.clone();
                    let cursor = todo.title.as_str().len();
                    proof {
                        lemma_position_of(self@.todos, id, i as int);
                    }
                    self.selected_todo = Some(SelectedTodo { id, title });
                    Some(Focus { id, cursor })
                },
                None => None,
            },
            None => {
                self.selected_todo = None;
                None
            },
        }
    }

    /// Replaces the working title of the editing session, if one is open.
    pub fn set_selected_todo_title(&mut self, title: String)
        requires
            old(self).wf(),
        ensures
            final(self).wf(),
            final(self)@ == set_editing_title_spec(old(self)@, title@),
    {
        match self.selected_todo.take() {
            Some(t) => {
                self.selected_todo = Some(SelectedTodo { id: t.id, title });
            },
            None => {},
        }
    }

    /// Writes the working title, as it is, into the edited record if it is
    /// still there, and closes the session.
    pub fn save_selected_todo(&mut self)
        requires
            old(self).wf(),
        ensures
            final(self).wf(),
            final(self)@ == save_spec(old(self)@),
    {
        match self.selected_todo.take() {
            Some(t) => {
                self.todos.set_title(t.id, t.title);
            },
            None => {},
        }
    }

    /// Handles `msg` with `candidate` as the id that the generator offers to a
    /// new record, and returns the effects that the host should run.
    pub fn update_with_id(&mut self, msg: Msg, candidate: u128) -> (r: Effects)
        requires
            old(self).wf(),
        ensures
            final(self).wf(),
            final(self)@ == update_spec(old(self)@, msg, candidate),
            r == effects_spec(old(self)@, msg),
    {
        match msg {
            Msg::NewTodoTitleChanged(title) => self.set_new_todo_title(title),
            Msg::CreateTodo => self.create_todo_with_id(candidate),
            Msg::ToggleTodo(id) => self.toggle_todo(id),
            Msg::RemoveTodo(id) => self.remove_todo(id),
            Msg::CheckOrUncheckAll => self.check_or_uncheck_all(),
            Msg::ClearCompleted => self.clear_completed(),
            Msg::SelectTodo(id) => {
                let focus = self.select_todo(id);
                return Effects { persist: false, focus };
            },
            Msg::SelectedTodoTitleChanged(title) => {
                self.set_selected_todo_title(title);
                return Effects { persist: false, focus: None };
            },
            Msg::SaveSelectedTodo => self.save_selected_todo(),
        }
        Effects { persist: true, focus: None }
    }

    /// Handles `msg` and returns the effects that the host should run. A new
    /// record takes its id from the ULID generator, checked by the list (see
    /// [`issue_id`]); whatever the generator offers, the state changes as
    /// `update_spec` says for some offered id.
    pub fn update(&mut self, msg: Msg) -> (r: Effects)
        requires
            old(self).wf(),
        ensures
            final(self).wf(),
            exists|candidate: u128| final(self)@ == update_spec(old(self)@, msg, candidate),
            r == effects_spec(old(self)@, msg),
    {
        let candidate = match msg {
            Msg::CreateTodo => generate_ulid(),
            _ => 0,
        };
        self.update_with_id(msg, candidate)
    }
}

/// With unique ids, the record found at `i` is the one `position_of` names.
pub proof fn lemma_position_of(s: Seq<TodoView>, id: u128, i: int)
    requires
        ids_increasing(s),
        0 <= i < s.len(),
        s[i].id == id,
    ensures
        position_of(s, id) == i,
        title_of(s, id) == s[i].title,
{
    let j = position_of(s, id);
    assert(0 <= j < s.len() && s[j].id == id);
    if j < i {
        assert(s[j].id < s[i].id);
    } else if i < j {
        assert(s[i].id < s[j].id);
    }
}

/// A record is among the completed ones exactly when it is there and
/// completed.
pub proof fn lemma_completed_has_id(s: Seq<TodoView>, id: u128)
    requires
        ids_increasing(s),
    ensures
        has_id(completed_of(s), id) <==> has_id(s, id) && s[position_of(s, id)].completed,
{
    let p = |t: TodoView| t.completed;
    let c = completed_of(s);
    if has_id(c, id) {
        let k = choose|k: int| 0 <= k < c.len() && c[k].id == id;
        s.lemma_filter_pred(p, k);
        s.lemma_filter_contains_rev(p, c[k]);
        let i = choose|i: int| 0 <= i < s.len() && s[i] == c[k];
        lemma_position_of(s, id, i);
    }
    if has_id(s, id) && s[position_of(s, id)].completed {
        let i = position_of(s, id);
        s.lemma_filter_contains(p, i);
        let k = choose|k: int| 0 <= k < c.len() && c[k] == s[i];
        assert(c[k].id == id);
    }
}

} // verus!
