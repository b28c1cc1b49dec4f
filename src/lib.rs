//! The state of a todo list application: an ordered list of todo records, the
//! draft title of the next record, and an optional editing session, changed one
//! message at a time by a reducer that also says which effects the host should
//! run (persist the list, focus an input).

pub mod ids;
pub mod laws;
pub mod model;
pub mod route;
pub mod text;
pub mod todo;
