//! Todo records and the ordered list that holds them.

use vstd::prelude::*;

verus! {

/// One todo record. `id` orders the records: a record created later has a
/// greater id.
pub struct Todo {
    pub id: u128,
    pub title: String,
    pub completed: bool,
}

/// The mathematical value of a [`Todo`].
pub struct TodoView {
    pub id: u128,
    pub title: Seq<char>,
    pub completed: bool,
}

impl View for Todo {
    type V = TodoView;

    open spec fn view(&self) -> TodoView {
        TodoView { id: self.id, title: self.title@, completed: self.completed }
    }
}

impl Todo {
    /// A new record that is not completed yet.
    pub fn new(id: u128, title: String) -> (r: Todo)
        ensures
            r@ == (TodoView { id, title: title@, completed: false }),
    {
        Todo { id, title, completed: false }
    }

    /// A copy of this record.
    pub fn duplicate(&self) -> (r: Todo)
        ensures
            r@ == self@,
    {
        Todo { id: self.id, title: self.title.clone(), completed: self.completed }
    }
}

/// Ids strictly increase along the sequence, so no id occurs twice.
pub open spec fn ids_increasing(s: Seq<TodoView>) -> bool {
    forall|i: int, j: int| 0 <= i < j < s.len() ==> s[i].id < s[j].id
}

/// Some record of `s` has the id `id`.
pub open spec fn has_id(s: Seq<TodoView>, id: u128) -> bool {
    exists|i: int| 0 <= i < s.len() && s[i].id == id
}

/// `s` with the record `id` (if any) flipped between completed and active.
pub open spec fn toggled(s: Seq<TodoView>, id: u128) -> Seq<TodoView> {
    s.map_values(
        |t: TodoView|
            if t.id == id {
                TodoView { id: t.id, title: t.title, completed: !t.completed }
            } else {
                t
            },
    )
}

/// `s` with the title of the record `id` (if any) replaced by `title`.
pub open spec fn retitled(s: Seq<TodoView>, id: u128, title: Seq<char>) -> Seq<TodoView> {
    s.map_values(
        |t: TodoView|
            if t.id == id {
                TodoView { id: t.id, title, completed: t.completed }
            } else {
                t
            },
    )
}

/// `s` with every record's completion set to `done`.
pub open spec fn all_set_to(s: Seq<TodoView>, done: bool) -> Seq<TodoView> {
    s.map_values(|t: TodoView| TodoView { id: t.id, title: t.title, completed: done })
}

/// `s` without the record `id`.
pub open spec fn without(s: Seq<TodoView>, id: u128) -> Seq<TodoView> {
    s.filter(|t: TodoView| t.id != id)
}

/// The records of `s` that are not completed, in order.
pub open spec fn active_of(s: Seq<TodoView>) -> Seq<TodoView> {
    s.filter(|t: TodoView| !t.completed)
}

/// The records of `s` that are completed, in order.
pub open spec fn completed_of(s: Seq<TodoView>) -> Seq<TodoView> {
    s.filter(|t: TodoView| t.completed)
}

/// Every record of `s` is completed (true of the empty list).
pub open spec fn all_completed(s: Seq<TodoView>) -> bool {
    forall|i: int| 0 <= i < s.len() ==> s[i].completed
}

/// `s` with `t` put in its place by id: it replaces the record with the same
/// id, or goes before the first record with a greater id.
pub open spec fn inserted(s: Seq<TodoView>, t: TodoView) -> Seq<TodoView>
    decreases s.len(),
{
    if s.len() == 0 {
        seq![t]
    } else if t.id < s[0].id {
        seq![t] + s
    } else if t.id == s[0].id {
        seq![t] + s.drop_first()
    } else {
        seq![s[0]] + inserted(s.drop_first(), t)
    }
}

/// The records of `ts` put in place one after another, starting from the
/// empty list: a later record replaces an earlier one with the same id.
pub open spec fn inserted_all(ts: Seq<TodoView>) -> Seq<TodoView>
    decreases ts.len(),
{
    if ts.len() == 0 {
        Seq::<TodoView>::empty()
    } else {
        inserted(inserted_all(ts.drop_last()), ts.last())
    }
}

/// The id that a list whose greatest issued id is `last` gives its next
/// record, when the id generator offers `candidate`: the candidate if it is
/// greater than every id issued so far, else the id after `last`; none once
/// the ids are used up.
pub open spec fn issue_id(last: u128, candidate: u128) -> Option<u128> {
    if candidate > last {
        Some(candidate)
    } else if last < u128::MAX {
        Some((last + 1) as u128)
    } else {
        None
    }
}

/// Where the records with a smaller id end, `inserted` splits the list.
pub proof fn lemma_inserted_at(s: Seq<TodoView>, t: TodoView, p: int)
    requires
        0 <= p <= s.len(),
        forall|j: int| 0 <= j < p ==> s[j].id < t.id,
        p < s.len() ==> s[p].id >= t.id,
    ensures
        inserted(s, t) == s.take(p) + seq![t] + (if p < s.len() && s[p].id == t.id {
            s.skip(p + 1)
        } else {
            s.skip(p)
        }),
    decreases p,
{
    if p == 0 {
        assert(s.take(0) =~= Seq::<TodoView>::empty());
        assert(s.skip(0) =~= s);
        assert(s.skip(1) =~= s.drop_first());
        if s.len() == 0 {
            assert(seq![t] =~= Seq::<TodoView>::empty() + seq![t] + s);
        }
    } else {
        let rest = s.drop_first();
        lemma_inserted_at(rest, t, p - 1);
        assert(s.take(p) =~= seq![s[0]] + rest.take(p - 1));
        assert(s.skip(p) =~= rest.skip(p - 1));
        if p < s.len() {
            assert(s.skip(p + 1) =~= rest.skip(p));
        }
    }
}

/// Filtering keeps the whole sequence when every element passes.
pub proof fn lemma_filter_keeps_all(s: Seq<TodoView>, p: spec_fn(TodoView) -> bool)
    requires
        forall|i: int| 0 <= i < s.len() ==> p(s[i]),
    ensures
        s.filter(p) == s,
    decreases s.len(),
{
    if s.len() > 0 {
        let init = s.drop_last();
        lemma_filter_keeps_all(init, p);
        init.lemma_filter_push(s.last(), p);
        assert(init.push(s.last()) =~= s);
    }
}

/// Filtering drops exactly the element at `k` when it is the only one that
/// fails the predicate.
pub proof fn lemma_filter_drops_one(s: Seq<TodoView>, p: spec_fn(TodoView) -> bool, k: int)
    requires
        0 <= k < s.len(),
        !p(s[k]),
        forall|i: int| 0 <= i < s.len() && i != k ==> p(s[i]),
    ensures
        s.filter(p) == s.remove(k),
{
    let pre = s.take(k);
    let post = s.skip(k + 1);
    lemma_filter_keeps_all(pre, p);
    lemma_filter_keeps_all(post, p);
    Seq::<TodoView>::empty().lemma_filter_push(s[k], p);
    assert(Seq::<TodoView>::empty().filter(p) =~= Seq::<TodoView>::empty()) by {
        reveal(Seq::filter);
    }
    assert(s =~= pre + seq![s[k]] + post);
    assert(seq![s[k]] =~= Seq::<TodoView>::empty().push(s[k]));
    Seq::filter_distributes_over_add(pre + seq![s[k]], post, p);
    Seq::filter_distributes_over_add(pre, seq![s[k]], p);
    assert(s.remove(k) =~= pre + post);
}

/// The list of todo records, in increasing order of id.
///
/// Besides the records, the list remembers the greatest id it has ever
/// issued, so that an id is never handed out twice, even after its record is
/// gone.
pub struct TodoList {
    items: Vec<Todo>,
    last_id: u128,
}

impl View for TodoList {
    type V = Seq<TodoView>;

    closed spec fn view(&self) -> Seq<TodoView> {
        self.items@.map_values(|t: Todo| t@)
    }
}

impl TodoList {
    /// The greatest id this list has issued or held.
    pub closed spec fn last_issued(&self) -> u128 {
        self.last_id
    }

    /// Ids increase along the list and none exceeds the last issued id.
    pub open spec fn wf(&self) -> bool {
        &&& ids_increasing(self@)
        &&& forall|i: int| 0 <= i < self@.len() ==> self@[i].id <= self.last_issued()
    }

    /// An empty list that has issued no id.
    pub fn new() -> (r: TodoList)
        ensures
            r.wf(),
            r@ == Seq::<TodoView>::empty(),
            r.last_issued() == 0,
    {
        let r = TodoList { items: Vec::new(), last_id: 0 };
        assert(r@ =~= Seq::<TodoView>::empty());
        r
    }

    /// The number of records.
    pub fn len(&self) -> (r: usize)
        ensures
            r == self@.len(),
    {
        self.items.len()
    }

    /// Whether the list holds no record.
    pub fn is_empty(&self) -> (r: bool)
        ensures
            r == (self@.len() == 0),
    {
        self.items.len() == 0
    }

    /// The record at position `i`.
    pub fn get(&self, i: usize) -> (r: &Todo)
        requires
            i < self@.len(),
        ensures
            r@ == self@[i as int],
    {
        &self.items[i]
    }

    /// The position of the record `id`, if the list holds it.
    pub fn find(&self, id: u128) -> (r: Option<usize>)
        ensures
            match r {
                Some(i) => i < self@.len() && self@[i as int].id == id,
                None => !has_id(self@, id),
            },
    {
        let mut i: usize = 0;
        while i < self.items.len()
            invariant
                i <= self@.len(),
                self@.len() == self.items@.len(),
                forall|j: int| 0 <= j < i ==> self@[j].id != id,
            decreases self.items@.len() - i,
        {
            if self.items[i].id == id {
                return Some(i);
            }
            i += 1;
        }
        None
    }

    /// Whether the list holds the record `id`.
    pub fn contains(&self, id: u128) -> (r: bool)
        ensures
            r == has_id(self@, id),
    {
        self.find(id).is_some()
    }

    /// Flips the record `id` between completed and active; nothing happens
    /// when the list does not hold it.
    pub fn toggle(&mut self, id: u128)
        requires
            old(self).wf(),
        ensures
            final(self).wf(),
            final(self)@ == toggled(old(self)@, id),
            final(self).last_issued() == old(self).last_issued(),
    {
        match self.find(id) {
            Some(i) => {
                let mut t = self.items.remove(i);
                t.completed = !t.completed;
                self.items.insert(i, t);
                assert(self@ =~= toggled(old(self)@, id));
            },
            None => {
                assert(self@ =~= toggled(old(self)@, id));
            },
        }
    }

    /// Removes the record `id`, if the list holds it.
    pub fn remove(&mut self, id: u128)
        requires
            old(self).wf(),
        ensures
            final(self).wf(),
            final(self)@ == without(old(self)@, id),
            final(self).last_issued() == old(self).last_issued(),
    {
        let ghost s = old(self)@;
        match self.find(id) {
            Some(i) => {
                self.items.remove(i);
                proof {
                    lemma_filter_drops_one(s, |t: TodoView| t.id != id, i as int);
                }
                assert(self@ =~= s.remove(i as int));
            },
            None => {
                proof {
                    lemma_filter_keeps_all(s, |t: TodoView| t.id != id);
                }
            },
        }
    }

    /// Sets the title of the record `id` to `title`; nothing happens when
    /// the list does not hold it.
    pub fn set_title(&mut self, id: u128, title: String)
        requires
            old(self).wf(),
        ensures
            final(self).wf(),
            final(self)@ == retitled(old(self)@, id, title@),
            final(self).last_issued() == old(self).last_issued(),
    {
        match self.find(id) {
            Some(i) => {
                let mut t = self.items.remove(i);
                t.title = title;
                self.items.insert(i, t);
                assert(self@ =~= retitled(old(self)@, id, title@));
            },
            None => {
                assert(self@ =~= retitled(old(self)@, id, title@));
            },
        }
    }

    /// Whether every record is completed (true of the empty list).
    pub fn all_completed(&self) -> (r: bool)
        ensures
            r == all_completed(self@),
    {
        let mut i: usize = 0;
        while i < self.items.len()
            invariant
                i <= self@.len(),
                self@.len() == self.items@.len(),
                forall|j: int| 0 <= j < i ==> self@[j].completed,
            decreases self.items@.len() - i,
        {
            if !self.items[i].completed {
                assert(!self@[i as int].completed);
                return false;
            }
            i += 1;
        }
        true
    }

    /// Sets every record's completion to `done`.
    pub fn set_all_completed(&mut self, done: bool)
        requires
            old(self).wf(),
        ensures
            final(self).wf(),
            final(self)@ == all_set_to(old(self)@, done),
            final(self).last_issued() == old(self).last_issued(),
    {
        let ghost s = old(self)@;
        let n = self.items.len();
        let mut i: usize = 0;
        while i < n
            invariant
                n == s.len(),
                n == self.items@.len(),
                i <= n,
                self.last_id == old(self).last_id,
                self@ =~= all_set_to(s, done).take(i as int) + s.skip(i as int),
            decreases n - i,
        {
            let ghost before = self@;
            assert(before[i as int] == s[i as int]);
            let mut t = self.items.remove(i);
            assert(t@ == s[i as int]);
            t.completed = done;
            self.items.insert(i, t);
            assert(self@ =~= before.update(i as int, all_set_to(s, done)[i as int]));
            i += 1;
            assert(self@ =~= all_set_to(s, done).take(i as int) + s.skip(i as int));
        }
        assert(self@ =~= all_set_to(s, done));
        assert forall|j: int| 0 <= j < self@.len() implies self@[j].id == s[j].id by {}
    }

    /// Removes every completed record, keeping the order of the others.
    pub fn clear_completed(&mut self)
        requires
            old(self).wf(),
        ensures
            final(self).wf(),
            final(self)@ == active_of(old(self)@),
            final(self).last_issued() == old(self).last_issued(),
    {
        let ghost s = old(self)@;
        let ghost p = |t: TodoView| !t.completed;
        let mut i: usize = 0;
        let ghost mut k: int = 0;
        while i < self.items.len()
            invariant
                0 <= k <= s.len(),
                i == s.take(k).filter(p).len(),
                self@ =~= s.take(k).filter(p) + s.skip(k),
                self.wf(),
                self.last_id == old(self).last_id,
                p == (|t: TodoView| !t.completed),
            decreases s.len() - k,
        {
            assert(self@[i as int] == s[k]);
            assert(s.take(k + 1) =~= s.take(k).push(s[k]));
            proof {
                s.take(k).lemma_filter_push(s[k], p);
            }
            let ghost before = self@;
            assert(s.skip(k) =~= seq![s[k]] + s.skip(k + 1));
            if self.items[i].completed {
                self.items.remove(i);
                assert(self@ =~= before.remove(i as int));
            } else {
                i += 1;
            }
            proof {
                k = k + 1;
            }
            assert(self@ =~= s.take(k).filter(p) + s.skip(k));
        }
        assert(s.take(k) =~= s);
        assert(self@ =~= s.take(k).filter(p));
    }

    /// The number of completed records.
    pub fn completed_count(&self) -> (r: usize)
        ensures
            r == completed_of(self@).len(),
    {
        let ghost s = self@;
        let ghost p = |t: TodoView| t.completed;
        let mut count: usize = 0;
        let mut i: usize = 0;
        while i < self.items.len()
            invariant
                i <= s.len(),
                s == self@,
                s.len() == self.items@.len(),
                count == s.take(i as int).filter(p).len(),
                count <= i,
                p == (|t: TodoView| t.completed),
            decreases s.len() - i,
        {
            assert(s.take(i + 1) =~= s.take(i as int).push(s[i as int]));
            proof {
                s.take(i as int).lemma_filter_push(s[i as int], p);
            }
            if self.items[i].completed {
                count += 1;
            }
            i += 1;
        }
        assert(s.take(i as int) =~= s);
        count
    }

    /// The number of records that are not completed.
    pub fn active_count(&self) -> (r: usize)
        ensures
            r == active_of(self@).len(),
    {
        let done = self.completed_count();
        proof {
            lemma_counts_add_up(self@);
        }
        self.items.len() - done
    }

    /// The id that the next new record gets when the generator offers
    /// `candidate`; `None` once the ids are used up.
    pub fn next_id(&self, candidate: u128) -> (r: Option<u128>)
        ensures
            r == issue_id(self.last_issued(), candidate),
    {
        if candidate > self.last_id {
            Some(candidate)
        } else if self.last_id < u128::MAX {
            Some(self.last_id + 1)
        } else {
            None
        }
    }

    /// Appends a new record, not completed, whose id is
    /// `issue_id(last_issued, candidate)`, and returns that id; when no id is
    /// left the list stays as it is.
    pub fn push_new(&mut self, candidate: u128, title: String) -> (r: Option<u128>)
        requires
            old(self).wf(),
        ensures
            final(self).wf(),
            r == issue_id(old(self).last_issued(), candidate),
            match r {
                Some(id) => {
                    &&& final(self)@ == old(self)@.push(
                        TodoView { id, title: title@, completed: false },
                    )
                    &&& final(self).last_issued() == id
                },
                None => *final(self) == *old(self),
            },
    {
        match self.next_id(candidate) {
            Some(id) => {
                self.items.push(Todo::new(id, title));
                self.last_id = id;
                assert(self@ =~= old(self)@.push(TodoView { id, title: title@, completed: false }));
                Some(id)
            },
            None => None,
        }
    }

    /// Puts `todo` in its place by id: it replaces the record with the same
    /// id, or goes before the first record with a greater id.
    pub fn insert(&mut self, todo: Todo)
        requires
            old(self).wf(),
        ensures
            final(self).wf(),
            final(self)@ == inserted(old(self)@, todo@),
            final(self).last_issued() == if todo.id > old(self).last_issued() {
                todo.id
            } else {
                old(self).last_issued()
            },
    {
        let ghost s = old(self)@;
        let ghost t = todo@;
        let id = todo.id;
        let mut p: usize = 0;
        while p < self.items.len() && self.items[p].id < todo.id
            invariant
                p <= s.len(),
                self@ == s,
                self.items@.len() == s.len(),
                t == todo@,
                forall|j: int| 0 <= j < p ==> s[j].id < t.id,
            decreases s.len() - p,
        {
            p += 1;
        }
        proof {
            lemma_inserted_at(s, t, p as int);
        }
        if p < self.items.len() && self.items[p].id == todo.id {
            self.items.remove(p);
            self.items.insert(p, todo);
            assert(self@ =~= s.take(p as int) + seq![t] + s.skip(p + 1));
        } else {
            self.items.insert(p, todo);
            assert(self@ =~= s.take(p as int) + seq![t] + s.skip(p as int));
        }
        if id > self.last_id {
            self.last_id = id;
        }
    }

    /// A list holding the records of `todos`, put in place one after another:
    /// a later record replaces an earlier one with the same id.
    pub fn from_todos(todos: &Vec<Todo>) -> (r: TodoList)
        ensures
            r.wf(),
            r@ == inserted_all(todos@.map_values(|t: Todo| t@)),
    {
        let ghost ts = todos@.map_values(|t: Todo| t@);
        let mut list = TodoList::new();
        let n = todos.len();
        let mut k: usize = 0;
        while k < n
            invariant
                n == ts.len(),
                n == todos@.len(),
                ts == todos@.map_values(|t: Todo| t@),
                k <= n,
                list.wf(),
                list@ == inserted_all(ts.take(k as int)),
            decreases n - k,
        {
            let todo = todos[k].duplicate();
            assert(ts.take(k + 1).drop_last() =~= ts.take(k as int));
            list.insert(todo);
            k += 1;
        }
        assert(ts.take(n as int) =~= ts);
        list
    }
}


/// Every record is either active or completed, so the two counts add up to
/// the length of the list.
pub proof fn lemma_counts_add_up(s: Seq<TodoView>)
    ensures
        active_of(s).len() + completed_of(s).len() == s.len(),
    decreases s.len(),
{
    if s.len() > 0 {
        let init = s.drop_last();
        lemma_counts_add_up(init);
        assert(init.push(s.last()) =~= s);
        init.lemma_filter_push(s.last(), |t: TodoView| !t.completed);
        init.lemma_filter_push(s.last(), |t: TodoView| t.completed);
    } else {
        assert(active_of(s) =~= s) by {
            reveal(Seq::filter);
        }
        assert(completed_of(s) =~= s) by {
            reveal(Seq::filter);
        }
    }
}

} // verus!
