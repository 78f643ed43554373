use mk8d_random::courses::course::{Coord, Course, Origin};
use mk8d_random::courses::course_list::{CourseList, EngineError, Snapshot};
use mk8d_random::courses::history::Action;

fn catalog(names: &[&str]) -> Vec<Course> {
    names
        .iter()
        .enumerate()
        .map(|(i, n)| Course::new(i + 1, Coord::new(0, 0, 0), Origin::MK8, n))
        .collect()
}

fn list_of(names: &[&str]) -> CourseList {
    CourseList::from_catalog(catalog(names), String::from("save.json"))
}

#[test]
fn snapshot_captures_the_whole_state() {
    let mut cl = list_of(&["One", "Two", "Three"]);
    assert_eq!(cl.remove(1), Ok(()));
    assert_eq!(cl.remove(0), Ok(()));
    assert_eq!(cl.roll_back(), Ok(Action::Remove(0)));
    let snap = cl.snapshot();
    assert_eq!(snap.save_name, "save.json");
    assert_eq!(snap.active, vec![0, 2]);
    assert_eq!(snap.past, vec![Action::Remove(1)]);
    assert_eq!(snap.future, vec![Action::Remove(0)]);
}

#[test]
fn restore_of_a_snapshot_reproduces_the_engine() {
    let mut cl = list_of(&["One", "Two", "Three", "Four"]);
    assert_eq!(cl.remove(3), Ok(()));
    assert_eq!(cl.remove(1), Ok(()));
    assert_eq!(cl.roll_back(), Ok(Action::Remove(1)));

    let snap = cl.snapshot();
    let restored = CourseList::restore(catalog(&["One", "Two", "Three", "Four"]), snap).unwrap();

    assert_eq!(restored.get_current(), cl.get_current());
    assert_eq!(restored.get_removed(), cl.get_removed());
    assert_eq!(restored.get_history().past, cl.get_history().past);
    assert_eq!(restored.get_history().future, cl.get_history().future);
    assert_eq!(restored.save_name, cl.save_name);
}

#[test]
fn restored_engine_keeps_working() {
    let mut cl = list_of(&["One", "Two"]);
    assert_eq!(cl.remove(0), Ok(()));
    let snap = cl.snapshot();
    let mut restored = CourseList::restore(catalog(&["One", "Two"]), snap).unwrap();
    assert_eq!(restored.roll_back(), Ok(Action::Remove(0)));
    assert_eq!(restored.get_current(), vec![0, 1]);
}

#[test]
fn restore_rejects_active_ids_outside_the_catalog() {
    let snap = Snapshot {
        save_name: String::from("s"),
        active: vec![0, 2],
        past: Vec::new(),
        future: Vec::new(),
    };
    let r = CourseList::restore(catalog(&["One", "Two"]), snap);
    assert!(matches!(r, Err(EngineError::OutOfRange)));
}

#[test]
fn restore_rejects_history_ids_outside_the_catalog() {
    let snap = Snapshot {
        save_name: String::from("s"),
        active: vec![0],
        past: vec![Action::Add(7)],
        future: Vec::new(),
    };
    let r = CourseList::restore(catalog(&["One", "Two"]), snap);
    assert!(matches!(r, Err(EngineError::OutOfRange)));

    let snap = Snapshot {
        save_name: String::from("s"),
        active: vec![0],
        past: Vec::new(),
        future: vec![Action::Remove(9)],
    };
    let r = CourseList::restore(catalog(&["One", "Two"]), snap);
    assert!(matches!(r, Err(EngineError::OutOfRange)));
}

#[test]
fn restore_accepts_a_hand_written_snapshot() {
    let snap = Snapshot {
        save_name: String::from("mine"),
        active: vec![1],
        past: vec![Action::Remove(0)],
        future: Vec::new(),
    };
    let cl = CourseList::restore(catalog(&["One", "Two"]), snap).unwrap();
    assert_eq!(cl.get_current(), vec![1]);
    assert_eq!(cl.get_removed(), vec![0]);
    assert_eq!(cl.save_name, "mine");
    assert_eq!(cl.get_history().past, vec![Action::Remove(0)]);
}
