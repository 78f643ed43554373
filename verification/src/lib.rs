//! Course-list engine: a fixed catalog of courses, a two-way partition of
//! their ids into an active and a removed set, random draws from the active
//! set, case-insensitive name search, chunked random tiering, and a linear
//! undo/redo log over every partition move.
//!
//! The engine never performs I/O itself: loading and saving go through plain
//! snapshot values that a front-end serializes however it likes.

pub mod app;
pub mod courses;
pub mod strings;
pub mod tui;
