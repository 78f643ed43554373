//! The course catalog, the active/removed partition over its ids, and the
//! undo/redo history of partition moves.

pub mod course;
pub mod history;
pub mod course_list;
pub mod model;
