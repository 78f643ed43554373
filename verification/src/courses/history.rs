//! The undo/redo action log: a `past` stack of performed actions and a
//! `future` stack of undone ones. Recording a new action always discards the
//! whole `future`, so redo history stays linear.

use vstd::prelude::*;
use vstd::string::StringExecFns;

use super::course::Course;

verus! {

/// A recorded move of one course id between the active and removed sets.
#[derive(Clone, Copy, Debug, PartialEq, Eq, Structural)]
pub enum Action {
    /// The id was moved into the active set.
    Add(usize),
    /// The id was moved out of the active set.
    Remove(usize),
}

/// The course id an action speaks of, whichever direction it moved.
pub open spec fn action_id(a: Action) -> usize {
    match a {
        Action::Add(i) => i,
        Action::Remove(i) => i,
    }
}

/// The label an action displays as: the action's kind around the name of
/// the course it moved.
pub open spec fn action_label(a: Action, courses: Seq<Course>) -> Seq<char> {
    match a {
        Action::Add(i) => "Add("@ + courses[i as int].name@ + ")"@,
        Action::Remove(i) => "Remove("@ + courses[i as int].name@ + ")"@,
    }
}

/// The one-line rendering of a log around its current position: the most
/// recent past action (or "None"; "..." marks deeper history) on the left,
/// the next future action on the right.
pub open spec fn history_label(
    past: Seq<Action>,
    future: Seq<Action>,
    courses: Seq<Course>,
) -> Seq<char> {
    let left = if past.len() == 0 {
        "None"@
    } else if past.len() == 1 {
        "None <- "@ + action_label(past.last(), courses)
    } else {
        "... <- "@ + action_label(past.last(), courses)
    };
    let right = if future.len() == 0 {
        "None"@
    } else if future.len() == 1 {
        action_label(future.last(), courses) + " -> None"@
    } else {
        action_label(future.last(), courses) + " -> ..."@
    };
    left + " <- Current -> "@ + right
}

impl Action {
    /// Render the action as its label, looking the course's name up in the
    /// given catalog.
    pub fn to_string(self, courses: &Vec<Course>) -> (r: String)
        requires
            action_id(self) < courses@.len(),
        ensures
            r@ == action_label(self, courses@),
    {
        let mut r = String::new();
        match self {
            Action::Add(i) => {
                r.append("Add(");
                r.append(courses[i].name.as_str());
                r.append(")");
            },
            Action::Remove(i) => {
                r.append("Remove(");
                r.append(courses[i].name.as_str());
                r.append(")");
            },
        }
        proof {
            assert(r@ =~= action_label(self, courses@));
        }
        r
    }
}

/// Linear undo/redo log. `past` holds performed actions, most recent last;
/// `future` holds undone actions, most recently undone last.
#[derive(Debug)]
pub struct History {
    /// Performed actions, most recent last.
    pub past: Vec<Action>,
    /// Undone actions, most recently undone last.
    pub future: Vec<Action>,
}

impl History {
    /// An empty log: nothing to undo, nothing to redo.
    pub fn new() -> (r: History)
        ensures
            r.past@ == Seq::<Action>::empty(),
            r.future@ == Seq::<Action>::empty(),
    {
        History { past: Vec::new(), future: Vec::new() }
    }

    /// Record a new action: append it to `past` and discard the whole
    /// `future`, even if the `future` was already empty.
    pub fn push(&mut self, action: Action)
        ensures
            final(self).past@ == old(self).past@.push(action),
            final(self).future@ == Seq::<Action>::empty(),
    {
        self.future.clear();
        self.past.push(action);
    }

    /// Step back: pop the most recent performed action onto the `future`
    /// stack and return it. Returns `None`, changing nothing, when there is
    /// no history.
    pub fn back(&mut self) -> (r: Option<Action>)
        ensures
            old(self).past@.len() == 0 ==> r is None && final(self).past@ == old(self).past@
                && final(self).future@ == old(self).future@,
            old(self).past@.len() > 0 ==> {
                &&& r == Some(old(self).past@.last())
                &&& final(self).past@ == old(self).past@.drop_last()
                &&& final(self).future@ == old(self).future@.push(old(self).past@.last())
            },
    {
        let res = match self.past.pop() {
            Some(a) => a,
            None => {
                return None;
            },
        };
        self.future.push(res);
        Some(res)
    }

    /// Step forward: pop the most recently undone action back onto the
    /// `past` stack and return it. Returns `None`, changing nothing, when
    /// there is nothing to redo.
    pub fn forward(&mut self) -> (r: Option<Action>)
        ensures
            old(self).future@.len() == 0 ==> r is None && final(self).past@ == old(self).past@
                && final(self).future@ == old(self).future@,
            old(self).future@.len() > 0 ==> {
                &&& r == Some(old(self).future@.last())
                &&& final(self).future@ == old(self).future@.drop_last()
                &&& final(self).past@ == old(self).past@.push(old(self).future@.last())
            },
    {
        let res = match self.future.pop() {
            Some(a) => a,
            None => {
                return None;
            },
        };
        self.past.push(res);
        Some(res)
    }

    /// Render the log as one line around the current position. The last
    /// entry of each stack, which is the one shown, must name a course of
    /// the given catalog.
    pub fn to_string(&self, courses: &Vec<Course>) -> (r: String)
        requires
            self.past@.len() > 0 ==> action_id(self.past@.last()) < courses@.len(),
            self.future@.len() > 0 ==> action_id(self.future@.last()) < courses@.len(),
        ensures
            r@ == history_label(self.past@, self.future@, courses@),
    {
        let mut r = String::new();
        if self.past.len() == 0 {
            r.append("None");
        } else {
            let a = self.past[self.past.len() - 1];
            if self.past.len() == 1 {
                r.append("None <- ");
            } else {
                r.append("... <- ");
            }
            let s = a.to_string(courses);
            r.append(s.as_str());
        }
        r.append(" <- Current -> ");
        if self.future.len() == 0 {
            r.append("None");
        } else {
            let a = self.future[self.future.len() - 1];
            let s = a.to_string(courses);
            r.append(s.as_str());
            if self.future.len() == 1 {
                r.append(" -> None");
            } else {
                r.append(" -> ...");
            }
        }
        proof {
            assert(r@ =~= history_label(self.past@, self.future@, courses@));
        }
        r
    }

    /// Clear both stacks.
    pub fn reset(&mut self)
        ensures
            final(self).past@ == Seq::<Action>::empty(),
            final(self).future@ == Seq::<Action>::empty(),
    {
        self.past.clear();
        self.future.clear();
    }
}

} // verus!
