//! Laws of the reducer and of the filters, proved over the specifications
//! that the executable functions meet.

use vstd::prelude::*;

use crate::model::{
    check_all_spec, clear_completed_spec, create_spec, lemma_position_of, model_wf, remove_spec,
    save_spec, select_spec, set_draft_spec, set_editing_title_spec, title_of, toggle_spec,
    update_spec, ModelView, Msg,
};
use crate::route::{filtered, route_accepts, Route};
use crate::todo::{
    active_of, all_completed, completed_of, has_id, ids_increasing, issue_id, lemma_filter_keeps_all,
    retitled, TodoView,
};

verus! {

/// The state after each step of `steps` in turn, where a step writes its text
/// as the draft title and then creates a record with the id its candidate
/// offers.
pub open spec fn create_each(m: ModelView, steps: Seq<(Seq<char>, u128)>) -> ModelView
    decreases steps.len(),
{
    if steps.len() == 0 {
        m
    } else {
        let before = create_each(m, steps.drop_last());
        create_spec(set_draft_spec(before, steps.last().0), steps.last().1)
    }
}

/// Ids are unique and increase in creation order: after any sequence of
/// creations, the records there before stay first, as they were, every
/// record created since has an id greater than every id issued before, and
/// ids strictly increase along the whole list.
pub proof fn lemma_created_ids_increase(m: ModelView, steps: Seq<(Seq<char>, u128)>)
    requires
        model_wf(m),
    ensures
        model_wf(create_each(m, steps)),
        create_each(m, steps).last_id >= m.last_id,
        create_each(m, steps).todos.len() >= m.todos.len(),
        create_each(m, steps).todos.take(m.todos.len() as int) == m.todos,
        forall|i: int|
            m.todos.len() <= i < create_each(m, steps).todos.len() ==> #[trigger] create_each(
                m,
                steps,
            ).todos[i].id > m.last_id,
    decreases steps.len(),
{
    if steps.len() > 0 {
        let before = create_each(m, steps.drop_last());
        lemma_created_ids_increase(m, steps.drop_last());
        let drafted = set_draft_spec(before, steps.last().0);
        let after = create_spec(drafted, steps.last().1);
        assert(after == create_each(m, steps));
        if after.todos.len() > before.todos.len() {
            let id = issue_id(before.last_id, steps.last().1)->0;
            assert(after.todos == before.todos.push(after.todos.last()));
            assert(after.todos.last().id == id);
            assert(after.todos.take(m.todos.len() as int) =~= before.todos.take(
                m.todos.len() as int,
            ));
        } else {
            assert(after.todos == before.todos);
        }
    }
}

/// The filters `Active` and `Completed` split the records: each record is in
/// exactly one of them, their sizes add up to the size of the list, and `All`
/// shows the whole list.
pub proof fn lemma_filters_partition(s: Seq<TodoView>)
    ensures
        filtered(s, Route::All) == s,
        filtered(s, Route::Active).len() + filtered(s, Route::Completed).len() == s.len(),
        filtered(s, Route::Active).to_set() + filtered(s, Route::Completed).to_set()
            == s.to_set(),
        filtered(s, Route::Active).to_set().disjoint(filtered(s, Route::Completed).to_set()),
    decreases s.len(),
{
    let pa = |t: TodoView| route_accepts(Route::Active, t);
    let pc = |t: TodoView| route_accepts(Route::Completed, t);
    let pl = |t: TodoView| route_accepts(Route::All, t);
    lemma_filter_keeps_all(s, pl);
    let a = filtered(s, Route::Active);
    let c = filtered(s, Route::Completed);
    if s.len() > 0 {
        let init = s.drop_last();
        lemma_filters_partition(init);
        assert(init.push(s.last()) =~= s);
        init.lemma_filter_push(s.last(), pa);
        init.lemma_filter_push(s.last(), pc);
    } else {
        assert(a =~= s) by {
            reveal(Seq::filter);
        }
        assert(c =~= s) by {
            reveal(Seq::filter);
        }
    }
    assert forall|t: TodoView| s.contains(t) <==> a.contains(t) || c.contains(t) by {
        if s.contains(t) {
            let i = choose|i: int| 0 <= i < s.len() && s[i] == t;
            if t.completed {
                s.lemma_filter_contains(pc, i);
            } else {
                s.lemma_filter_contains(pa, i);
            }
        }
        if a.contains(t) {
            s.lemma_filter_contains_rev(pa, t);
        }
        if c.contains(t) {
            s.lemma_filter_contains_rev(pc, t);
        }
    }
    assert forall|t: TodoView| !(a.contains(t) && c.contains(t)) by {
        if a.contains(t) && c.contains(t) {
            let i = choose|i: int| 0 <= i < a.len() && a[i] == t;
            let j = choose|j: int| 0 <= j < c.len() && c[j] == t;
            s.lemma_filter_pred(pa, i);
            s.lemma_filter_pred(pc, j);
        }
    }
    assert(a.to_set() + c.to_set() =~= s.to_set());
}

/// Toggling a record twice gives it back its completion, and toggling a
/// missing record changes nothing.
pub proof fn lemma_toggle_twice(m: ModelView, id: u128)
    ensures
        toggle_spec(toggle_spec(m, id), id) == m,
        !has_id(m.todos, id) ==> toggle_spec(m, id) == m,
{
    assert(toggle_spec(toggle_spec(m, id), id).todos =~= m.todos);
    if !has_id(m.todos, id) {
        assert(toggle_spec(m, id).todos =~= m.todos);
    }
}

/// After the bulk toggle all records agree: all completed when some record
/// was active, all active when every record was completed. A second bulk
/// toggle flips them all again: from a list with an active record the two
/// leave every record active; from a list where all were completed they leave
/// all completed.
pub proof fn lemma_check_all_agrees(m: ModelView)
    ensures
        !all_completed(m.todos) ==> all_completed(check_all_spec(m).todos),
        all_completed(m.todos) ==> forall|i: int|
            0 <= i < check_all_spec(m).todos.len() ==> !check_all_spec(m).todos[i].completed,
        !all_completed(m.todos) ==> forall|i: int|
            0 <= i < check_all_spec(check_all_spec(m)).todos.len()
                ==> !check_all_spec(check_all_spec(m)).todos[i].completed,
        all_completed(m.todos) ==> all_completed(check_all_spec(check_all_spec(m)).todos),
{
    let once = check_all_spec(m);
    if all_completed(m.todos) && m.todos.len() > 0 {
        assert(!once.todos[0].completed);
    }
}

/// Clearing removes exactly the completed records, keeps the order of the
/// others, and leaves the number of active records as it was.
pub proof fn lemma_clear_completed_exact(m: ModelView)
    ensures
        clear_completed_spec(m).todos == active_of(m.todos),
        forall|t: TodoView|
            clear_completed_spec(m).todos.contains(t) <==> m.todos.contains(t) && !t.completed,
        active_of(clear_completed_spec(m).todos).len() == active_of(m.todos).len(),
        completed_of(clear_completed_spec(m).todos).len() == 0,
{
    let s = m.todos;
    let pa = |t: TodoView| !t.completed;
    let pc = |t: TodoView| t.completed;
    let r = active_of(s);
    assert forall|t: TodoView| r.contains(t) <==> s.contains(t) && !t.completed by {
        if r.contains(t) {
            s.lemma_filter_contains_rev(pa, t);
            let i = choose|i: int| 0 <= i < r.len() && r[i] == t;
            s.lemma_filter_pred(pa, i);
        }
        if s.contains(t) && !t.completed {
            let i = choose|i: int| 0 <= i < s.len() && s[i] == t;
            s.lemma_filter_contains(pa, i);
        }
    }
    assert forall|i: int| 0 <= i < r.len() implies pa(r[i]) by {
        s.lemma_filter_pred(pa, i);
    }
    lemma_filter_keeps_all(r, pa);
    if completed_of(r).len() > 0 {
        r.lemma_filter_pred(pc, 0);
        r.lemma_filter_contains_rev(pc, completed_of(r)[0]);
        assert(completed_of(r).contains(completed_of(r)[0]));
    }
}

/// Selecting a record, changing the working title to `t` and saving sets that
/// record's title to `t` exactly, leaves the others as they were, and closes
/// the session. When the record is removed between the selection and the
/// save, the removal closes the session and the save changes nothing.
pub proof fn lemma_edit_round_trip(m: ModelView, id: u128, t: Seq<char>)
    requires
        model_wf(m),
        has_id(m.todos, id),
    ensures
        save_spec(set_editing_title_spec(select_spec(m, Some(id)), t)).todos == retitled(
            m.todos,
            id,
            t,
        ),
        has_id(save_spec(set_editing_title_spec(select_spec(m, Some(id)), t)).todos, id),
        title_of(save_spec(set_editing_title_spec(select_spec(m, Some(id)), t)).todos, id) == t,
        save_spec(set_editing_title_spec(select_spec(m, Some(id)), t)).editing is None,
        remove_spec(set_editing_title_spec(select_spec(m, Some(id)), t), id).editing is None,
        save_spec(remove_spec(set_editing_title_spec(select_spec(m, Some(id)), t), id))
            == remove_spec(set_editing_title_spec(select_spec(m, Some(id)), t), id),
{
    let r = retitled(m.todos, id, t);
    let i = choose|i: int| 0 <= i < m.todos.len() && m.todos[i].id == id;
    assert(r[i].id == id);
    assert forall|a: int, b: int| 0 <= a < b < r.len() implies r[a].id < r[b].id by {
        assert(m.todos[a].id < m.todos[b].id);
    }
    lemma_position_of(r, id, i);
}

/// Filtering keeps ids increasing and keeps every id within a bound that
/// held for the whole sequence.
pub proof fn lemma_filter_keeps_ids(s: Seq<TodoView>, p: spec_fn(TodoView) -> bool, bound: u128)
    requires
        ids_increasing(s),
        forall|i: int| 0 <= i < s.len() ==> s[i].id <= bound,
    ensures
        ids_increasing(s.filter(p)),
        forall|i: int| 0 <= i < s.filter(p).len() ==> s.filter(p)[i].id <= bound,
    decreases s.len(),
{
    let f = s.filter(p);
    if s.len() == 0 {
        assert(f =~= s) by {
            reveal(Seq::filter);
        }
    } else {
        let init = s.drop_last();
        lemma_filter_keeps_ids(init, p, bound);
        assert(init.push(s.last()) =~= s);
        init.lemma_filter_push(s.last(), p);
        let g = init.filter(p);
        assert forall|i: int| 0 <= i < g.len() implies g[i].id < s.last().id by {
            assert(g.contains(g[i]));
            init.lemma_filter_contains_rev(p, g[i]);
            let j = choose|j: int| 0 <= j < init.len() && init[j] == g[i];
            assert(s[j] == init[j]);
        }
    }
}

/// Ids are never reused: every message keeps the ids of the records unique
/// and increasing, keeps them within the last issued id, and never lowers
/// that id, whatever id the generator offers.
pub proof fn lemma_update_keeps_ids(m: ModelView, msg: Msg, candidate: u128)
    requires
        model_wf(m),
    ensures
        model_wf(update_spec(m, msg, candidate)),
        update_spec(m, msg, candidate).last_id >= m.last_id,
{
    let r = update_spec(m, msg, candidate);
    match msg {
        Msg::CreateTodo => {
            lemma_created_ids_increase(m, seq![(m.draft, candidate)]);
            assert(seq![(m.draft, candidate)].drop_last() =~= Seq::<(Seq<char>, u128)>::empty());
            assert(set_draft_spec(m, m.draft) == m);
        },
        Msg::RemoveTodo(id) => {
            lemma_filter_keeps_ids(m.todos, |t: TodoView| t.id != id, m.last_id);
        },
        Msg::ClearCompleted => {
            lemma_filter_keeps_ids(m.todos, |t: TodoView| !t.completed, m.last_id);
        },
        _ => {
            assert(r.todos.len() == m.todos.len());
            assert(forall|i: int| 0 <= i < r.todos.len() ==> r.todos[i].id == m.todos[i].id);
        },
    }
}

} // verus!
