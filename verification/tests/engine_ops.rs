use mk8d_random::courses::course::{Coord, Course, Origin};
use mk8d_random::courses::course_list::{CourseList, EngineError};
use mk8d_random::courses::history::Action;

fn catalog(names: &[&str]) -> Vec<Course> {
    names
        .iter()
        .enumerate()
        .map(|(i, n)| Course::new(i + 1, Coord::new(0, 0, 0), Origin::MK8, n))
        .collect()
}

fn list_of(names: &[&str]) -> CourseList {
    CourseList::from_catalog(catalog(names), String::from("save.json"))
}

#[test]
fn courses_carry_their_fields() {
    let c = Course::new(3, Coord::new(1, 2, 4), Origin::SNES, "Rainbow Road");
    assert_eq!(c.name, "Rainbow Road");
    assert_eq!(c.rank, 3);
    assert_eq!(c.coord, Coord::new(1, 2, 4));
    assert_eq!(c.origin, Origin::SNES);
}

#[test]
fn catalog_lookup_by_id() {
    let cl = list_of(&["One", "Two"]);
    assert_eq!(cl.get_course(1).unwrap().name, "Two");
    assert_eq!(cl.get_course(2).unwrap_err(), EngineError::OutOfRange);
}

#[test]
fn fresh_list_is_all_active() {
    let cl = list_of(&["One", "Two", "Three"]);
    assert_eq!(cl.get_current(), vec![0, 1, 2]);
    assert_eq!(cl.get_removed(), Vec::<usize>::new());
    assert!(cl.get_history().past.is_empty());
    assert!(cl.get_history().future.is_empty());
}

#[test]
fn empty_list() {
    let cl = CourseList::new(String::from("empty.json"));
    assert_eq!(cl.get_current(), Vec::<usize>::new());
    assert_eq!(cl.get_removed(), Vec::<usize>::new());
    assert_eq!(cl.save_name, "empty.json");
}

#[test]
fn remove_then_add_moves_between_sets() {
    let mut cl = list_of(&["One", "Two", "Three"]);
    assert_eq!(cl.remove(1), Ok(()));
    assert_eq!(cl.get_current(), vec![0, 2]);
    assert_eq!(cl.get_removed(), vec![1]);
    assert_eq!(cl.get_history().past, vec![Action::Remove(1)]);

    assert_eq!(cl.add(1), Ok(()));
    assert_eq!(cl.get_current(), vec![0, 1, 2]);
    assert_eq!(cl.get_removed(), Vec::<usize>::new());
    assert_eq!(cl.get_history().past, vec![Action::Remove(1), Action::Add(1)]);
}

#[test]
fn add_and_remove_errors() {
    let mut cl = list_of(&["One", "Two"]);
    assert_eq!(cl.add(0), Err(EngineError::AlreadyActive));
    assert_eq!(cl.add(2), Err(EngineError::OutOfRange));
    assert_eq!(cl.remove(2), Err(EngineError::OutOfRange));
    assert_eq!(cl.remove(0), Ok(()));
    assert_eq!(cl.remove(0), Err(EngineError::AlreadyRemoved));
    // failed calls record nothing
    assert_eq!(cl.get_history().past, vec![Action::Remove(0)]);
}

#[test]
fn partition_holds_after_every_call() {
    let mut cl = list_of(&["One", "Two", "Three", "Four"]);
    let check = |cl: &CourseList| {
        let mut all = cl.get_current();
        all.extend(cl.get_removed());
        all.sort();
        assert_eq!(all, vec![0, 1, 2, 3]);
    };
    check(&cl);
    assert!(cl.remove(2).is_ok());
    check(&cl);
    assert!(cl.remove(0).is_ok());
    check(&cl);
    assert!(cl.add(2).is_ok());
    check(&cl);
    assert!(cl.roll_back().is_ok());
    check(&cl);
    assert!(cl.roll_forward().is_ok());
    check(&cl);
    cl.reset();
    check(&cl);
}

#[test]
fn undo_restores_prior_state() {
    let mut cl = list_of(&["One", "Two", "Three"]);
    let before = cl.get_current();
    assert_eq!(cl.remove(1), Ok(()));
    assert_eq!(cl.roll_back(), Ok(Action::Remove(1)));
    assert_eq!(cl.get_current(), before);
    assert!(cl.get_history().past.is_empty());
}

#[test]
fn undo_then_redo_is_a_no_op_on_the_partition() {
    let mut cl = list_of(&["One", "Two", "Three"]);
    assert_eq!(cl.remove(2), Ok(()));
    assert_eq!(cl.add(2), Ok(()));
    let before = cl.get_current();
    assert_eq!(cl.roll_back(), Ok(Action::Add(2)));
    assert_eq!(cl.roll_forward(), Ok(Action::Add(2)));
    assert_eq!(cl.get_current(), before);
}

#[test]
fn undo_and_redo_errors_at_the_ends() {
    let mut cl = list_of(&["One", "Two"]);
    assert_eq!(cl.roll_back(), Err(EngineError::NoHistory));
    assert_eq!(cl.roll_forward(), Err(EngineError::NoFuture));
    assert_eq!(cl.remove(0), Ok(()));
    assert_eq!(cl.roll_forward(), Err(EngineError::NoFuture));
}

#[test]
fn scenario_two_courses() {
    let mut cl = list_of(&["One", "Two"]);
    assert_eq!(cl.remove(0), Ok(()));
    assert_eq!(cl.get_current(), vec![1]);
    assert_eq!(cl.get_removed(), vec![0]);

    assert_eq!(cl.roll_back(), Ok(Action::Remove(0)));
    assert_eq!(cl.get_current(), vec![0, 1]);
    assert_eq!(cl.get_removed(), Vec::<usize>::new());

    assert_eq!(cl.roll_forward(), Ok(Action::Remove(0)));
    assert_eq!(cl.get_current(), vec![1]);
    assert_eq!(cl.get_removed(), vec![0]);

    cl.reset();
    assert_eq!(cl.get_current(), vec![0, 1]);
    assert_eq!(cl.get_removed(), Vec::<usize>::new());
    assert!(cl.get_history().past.is_empty());
    assert!(cl.get_history().future.is_empty());
    assert_eq!(cl.roll_back(), Err(EngineError::NoHistory));
}

#[test]
fn reset_reactivates_everything_and_clears_history() {
    let mut cl = list_of(&["One", "Two", "Three"]);
    assert_eq!(cl.remove(0), Ok(()));
    assert_eq!(cl.remove(2), Ok(()));
    assert_eq!(cl.roll_back(), Ok(Action::Remove(2)));
    cl.reset();
    assert_eq!(cl.get_current(), vec![0, 1, 2]);
    assert!(cl.get_history().past.is_empty());
    assert!(cl.get_history().future.is_empty());
}

#[test]
fn new_action_clears_redo_history() {
    let mut cl = list_of(&["One", "Two", "Three"]);
    assert_eq!(cl.remove(1), Ok(()));
    assert_eq!(cl.roll_back(), Ok(Action::Remove(1)));
    assert!(!cl.get_history().future.is_empty());
    assert_eq!(cl.remove(2), Ok(()));
    assert!(cl.get_history().future.is_empty());
    assert_eq!(cl.roll_forward(), Err(EngineError::NoFuture));
}
