use mk8d_random::courses::course::{Coord, Course, Origin};
use mk8d_random::courses::history::{Action, History};

fn catalog(names: &[&str]) -> Vec<Course> {
    names
        .iter()
        .enumerate()
        .map(|(i, n)| Course::new(i + 1, Coord::new(0, 0, 0), Origin::MK8, n))
        .collect()
}

#[test]
fn new_log_is_empty() {
    let h = History::new();
    assert!(h.past.is_empty());
    assert!(h.future.is_empty());
}

#[test]
fn push_appends_to_the_past() {
    let mut h = History::new();
    h.push(Action::Add(0));
    h.push(Action::Remove(1));
    assert_eq!(h.past, vec![Action::Add(0), Action::Remove(1)]);
    assert!(h.future.is_empty());
}

#[test]
fn back_and_forward_move_between_the_stacks() {
    let mut h = History::new();
    h.push(Action::Add(0));
    h.push(Action::Remove(1));
    assert_eq!(h.back(), Some(Action::Remove(1)));
    assert_eq!(h.past, vec![Action::Add(0)]);
    assert_eq!(h.future, vec![Action::Remove(1)]);
    assert_eq!(h.forward(), Some(Action::Remove(1)));
    assert_eq!(h.past, vec![Action::Add(0), Action::Remove(1)]);
    assert!(h.future.is_empty());
}

#[test]
fn back_and_forward_fail_at_the_ends() {
    let mut h = History::new();
    assert_eq!(h.back(), None);
    assert_eq!(h.forward(), None);
    h.push(Action::Add(2));
    assert_eq!(h.forward(), None);
}

#[test]
fn push_discards_a_non_empty_future() {
    let mut h = History::new();
    h.push(Action::Add(0));
    h.push(Action::Add(1));
    assert_eq!(h.back(), Some(Action::Add(1)));
    assert_eq!(h.back(), Some(Action::Add(0)));
    assert_eq!(h.future, vec![Action::Add(1), Action::Add(0)]);
    h.push(Action::Remove(2));
    assert!(h.future.is_empty());
    assert_eq!(h.forward(), None);
    assert_eq!(h.past, vec![Action::Remove(2)]);
}

#[test]
fn reset_clears_both_stacks() {
    let mut h = History::new();
    h.push(Action::Add(0));
    h.push(Action::Add(1));
    h.back();
    h.reset();
    assert!(h.past.is_empty());
    assert!(h.future.is_empty());
}

#[test]
fn action_labels() {
    let courses = catalog(&["One", "Two"]);
    assert_eq!(Action::Add(0).to_string(&courses), "Add(One)");
    assert_eq!(Action::Remove(1).to_string(&courses), "Remove(Two)");
}

#[test]
fn history_rendering() {
    let courses = catalog(&["One", "Two"]);
    let mut h = History::new();
    assert_eq!(h.to_string(&courses), "None <- Current -> None");

    h.push(Action::Add(0));
    assert_eq!(h.to_string(&courses), "None <- Add(One) <- Current -> None");

    h.push(Action::Remove(1));
    assert_eq!(h.to_string(&courses), "... <- Remove(Two) <- Current -> None");

    h.back();
    assert_eq!(h.to_string(&courses), "None <- Add(One) <- Current -> Remove(Two) -> None");

    h.back();
    assert_eq!(h.to_string(&courses), "None <- Current -> Add(One) -> ...");
}
