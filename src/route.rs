//! Routes: which records the list shows, and the URL paths that name them.

use vstd::prelude::*;
use vstd::utf8::{encode_utf8, encode_utf8_decode_utf8};

use crate::todo::{Todo, TodoList, TodoView};

verus! {

/// A route of the application. Three of them are filters over the records;
/// `NotFound` stands for a path that names none.
#[derive(Clone, Copy, Debug, PartialEq, Eq, Structural)]
pub enum Route {
    Active,
    Completed,
    NotFound,
    All,
}

/// Whether the route `route` shows the record `t`. `NotFound` hides nothing.
pub open spec fn route_accepts(route: Route, t: TodoView) -> bool {
    match route {
        Route::Active => !t.completed,
        Route::Completed => t.completed,
        Route::NotFound => true,
        Route::All => true,
    }
}

/// The records of `s` that `route` shows, in order.
pub open spec fn filtered(s: Seq<TodoView>, route: Route) -> Seq<TodoView> {
    s.filter(|t: TodoView| route_accepts(route, t))
}

/// The path segment of the `Active` route.
pub open spec fn active_segment() -> Seq<char> {
    seq!['a', 'c', 't', 'i', 'v', 'e']
}

/// The path segment of the `Completed` route.
pub open spec fn completed_segment() -> Seq<char> {
    seq!['c', 'o', 'm', 'p', 'l', 'e', 't', 'e', 'd']
}

/// The two segments are not empty and differ (they differ in length).
proof fn lemma_segments_differ()
    ensures
        active_segment().len() == 6,
        completed_segment().len() == 9,
        active_segment() != completed_segment(),
{
}

/// The route that a URL path names, given as its segments: the empty path
/// (or one empty segment) names `All`, the single segment `active` names
/// `Active`, the single segment `completed` names `Completed`, and every
/// other path names `NotFound`.
pub open spec fn route_of_path(path: Seq<Seq<char>>) -> Route {
    if path.len() == 0 || (path.len() == 1 && path[0].len() == 0) {
        Route::All
    } else if path.len() == 1 && path[0] == active_segment() {
        Route::Active
    } else if path.len() == 1 && path[0] == completed_segment() {
        Route::Completed
    } else {
        Route::NotFound
    }
}

/// Whether two byte sequences are equal.
fn bytes_equal(a: &[u8], b: &[u8]) -> (r: bool)
    ensures
        r == (a@ == b@),
{
    if a.len() != b.len() {
        return false;
    }
    let mut i: usize = 0;
    while i < a.len()
        invariant
            a@.len() == b@.len(),
            i <= a@.len(),
            forall|j: int| 0 <= j < i ==> a@[j] == b@[j],
        decreases a@.len() - i,
    {
        if a[i] != b[i] {
            return false;
        }
        i += 1;
    }
    assert(a@ =~= b@);
    true
}

/// Whether two texts are equal, compared by their UTF-8 bytes.
fn text_equal(a: &str, b: &str) -> (r: bool)
    ensures
        r == (a@ == b@),
{
    proof {
        encode_utf8_decode_utf8(a@);
        encode_utf8_decode_utf8(b@);
    }
    bytes_equal(a.as_bytes(), b.as_bytes())
}

impl Route {
    /// Whether this route shows `todo`.
    pub fn accepts(&self, todo: &Todo) -> (r: bool)
        ensures
            r == route_accepts(*self, todo@),
    {
        match self {
            Route::Active => !todo.completed,
            Route::Completed => todo.completed,
            Route::NotFound => true,
            Route::All => true,
        }
    }

    /// Whether this route is one of the three filters (not `NotFound`).
    pub fn is_filter(&self) -> (r: bool)
        ensures
            r == (*self != Route::NotFound),
    {
        match self {
            Route::NotFound => false,
            _ => true,
        }
    }

    /// The name of a filter as the user reads it; empty for `NotFound`.
    pub fn title(&self) -> (r: &'static str)
        ensures
            r@ == match *self {
                Route::Active => seq!['A', 'c', 't', 'i', 'v', 'e'],
                Route::Completed => seq!['C', 'o', 'm', 'p', 'l', 'e', 't', 'e', 'd'],
                Route::NotFound => Seq::<char>::empty(),
                Route::All => seq!['A', 'l', 'l'],
            },
    {
        match self {
            Route::Active => {
                proof {
                    reveal_strlit("Active");
                }
                "Active"
            },
            Route::Completed => {
                proof {
                    reveal_strlit("Completed");
                }
                "Completed"
            },
            Route::NotFound => {
                proof {
                    reveal_strlit("");
                }
                ""
            },
            Route::All => {
                proof {
                    reveal_strlit("All");
                }
                "All"
            },
        }
    }

    /// The path segment that names a filter; `None` for `NotFound`, which no
    /// path names on purpose.
    pub fn path(&self) -> (r: Option<&'static str>)
        ensures
            match *self {
                Route::Active => r.is_some() && r.unwrap()@ == active_segment(),
                Route::Completed => r.is_some() && r.unwrap()@ == completed_segment(),
                Route::NotFound => r.is_none(),
                Route::All => r.is_some() && r.unwrap()@.len() == 0,
            },
            r.is_some() ==> route_of_path(seq![r.unwrap()@]) == *self,
    {
        proof {
            lemma_segments_differ();
        }
        match self {
            Route::Active => {
                proof {
                    reveal_strlit("active");
                }
                Some("active")
            },
            Route::Completed => {
                proof {
                    reveal_strlit("completed");
                }
                Some("completed")
            },
            Route::NotFound => None,
            Route::All => {
                proof {
                    reveal_strlit("");
                }
                Some("")
            },
        }
    }

    /// The route that a URL path names, given as its segments (see
    /// [`route_of_path`]).
    pub fn from_path(path: &Vec<String>) -> (r: Route)
        ensures
            r == route_of_path(path@.map_values(|p: String| p@)),
    {
        if path.len() == 0 {
            return Route::All;
        }
        if path.len() != 1 {
            return Route::NotFound;
        }
        let seg = path[0].as_str();
        proof {
            reveal_strlit("active");
            reveal_strlit("completed");
            lemma_segments_differ();
        }
        assert("active"@ == active_segment());
        assert("completed"@ == completed_segment());
        if seg.is_empty() {
            Route::All
        } else if text_equal(seg, "active") {
            Route::Active
        } else if text_equal(seg, "completed") {
            Route::Completed
        } else {
            Route::NotFound
        }
    }
}

impl TodoList {
    /// Copies of the records that `route` shows, in order.
    pub fn filtered(&self, route: Route) -> (r: Vec<Todo>)
        ensures
            r@.map_values(|t: Todo| t@) == filtered(self@, route),
    {
        let ghost s = self@;
        let ghost p = |t: TodoView| route_accepts(route, t);
        let mut out: Vec<Todo> = Vec::new();
        let mut i: usize = 0;
        while i < self.len()
            invariant
                s == self@,
                i <= s.len(),
                out@.map_values(|t: Todo| t@) == s.take(i as int).filter(p),
                p == (|t: TodoView| route_accepts(route, t)),
            decreases s.len() - i,
        {
            let todo = self.get(i);
            assert(s.take(i + 1) =~= s.take(i as int).push(s[i as int]));
            proof {
                s.take(i as int).lemma_filter_push(s[i as int], p);
            }
            let ghost before = out@;
            if route.accepts(todo) {
                out.push(todo.duplicate());
                assert(out@.map_values(|t: Todo| t@) =~= before.map_values(|t: Todo| t@).push(
                    s[i as int],
                ));
            }
            i += 1;
        }
        assert(s.take(i as int) =~= s);
        out
    }
}

/// The ending of "item" in the footer's count of records left: none for
/// exactly one, "s" for any other number.
pub fn item_suffix(count: usize) -> (r: &'static str)
    ensures
        r@ == if count == 1 {
            Seq::<char>::empty()
        } else {
            seq!['s']
        },
{
    proof {
        reveal_strlit("");
        reveal_strlit("s");
    }
    if count == 1 {
        ""
    } else {
        "s"
    }
}

} // verus!
