//! The engine: a `CourseList` owns the catalog, the active/removed partition
//! over its ids, the list's save name, and the history of partition moves.
//! Every operation preserves the partition invariant: each id of `0..n` is
//! in exactly one of the two sets.

use vstd::prelude::*;

use rand::RngExt;

use super::course::Course;
use super::history::{action_id, Action, History};
use super::model::{
    activate_step, deactivate_step, lemma_steps_preserve_wf, redo_step, removed_of, reset_step,
    restore_model, snapshot_of, snapshot_valid, undo_step, wf_model, EngineModel, SnapshotModel,
};
use crate::strings::{contains_sub, is_substring, lower_of, lowercase};

verus! {

/// The ids below `upto` whose activity flag equals `want`, in ascending
/// order.
pub open spec fn flagged_ids(flags: Seq<bool>, want: bool, upto: int) -> Seq<usize>
    decreases upto,
{
    if upto <= 0 {
        Seq::empty()
    } else if flags[upto - 1] == want {
        flagged_ids(flags, want, upto - 1).push((upto - 1) as usize)
    } else {
        flagged_ids(flags, want, upto - 1)
    }
}

/// Facts about the flagged-id listing: its entries strictly ascend, each
/// entry lies below `upto` and carries the wanted flag, and every id with
/// the wanted flag is listed.
pub proof fn lemma_flagged_ids(flags: Seq<bool>, want: bool, upto: int)
    requires
        0 <= upto <= flags.len(),
        upto <= usize::MAX,
    ensures
        forall|a: int, b: int|
            0 <= a < b < flagged_ids(flags, want, upto).len() ==> flagged_ids(flags, want, upto)[a]
                < flagged_ids(flags, want, upto)[b],
        forall|k: int|
            0 <= k < flagged_ids(flags, want, upto).len() ==> (#[trigger] flagged_ids(
                flags,
                want,
                upto,
            )[k]) < upto && flags[flagged_ids(flags, want, upto)[k] as int] == want,
        forall|i: int|
            0 <= i < upto && #[trigger] flags[i] == want ==> flagged_ids(flags, want, upto).contains(
                i as usize,
            ),
    decreases upto,
{
    if upto > 0 {
        lemma_flagged_ids(flags, want, upto - 1);
        let prev = flagged_ids(flags, want, upto - 1);
        let cur = flagged_ids(flags, want, upto);
        if flags[upto - 1] == want {
            assert(cur == prev.push((upto - 1) as usize));
            assert forall|k: int| 0 <= k < cur.len() implies (#[trigger] cur[k]) < upto
                && flags[cur[k] as int] == want by {
                if k < prev.len() {
                    assert(cur[k] == prev[k]);
                } else {
                    assert(cur[k] == (upto - 1) as usize);
                }
            }
            assert forall|a: int, b: int| 0 <= a < b < cur.len() implies cur[a] < cur[b] by {
                if b < prev.len() {
                    assert(prev[a] < prev[b]);
                } else {
                    assert(cur[a] == prev[a] && prev[a] < upto - 1);
                    assert(cur[b] == (upto - 1) as usize);
                }
            }
            assert(cur.contains((upto - 1) as usize)) by {
                assert(cur[cur.len() - 1] == (upto - 1) as usize);
            }
            assert forall|i: int|
                0 <= i < upto - 1 && #[trigger] flags[i] == want implies cur.contains(
                i as usize,
            ) by {
                assert(prev.contains(i as usize));
                let w = choose|w: int| 0 <= w < prev.len() && prev[w] == i as usize;
                assert(cur[w] == i as usize);
            }
        } else {
            assert forall|i: int|
                0 <= i < upto && #[trigger] flags[i] == want implies cur.contains(i as usize) by {
                assert(prev.contains(i as usize));
            }
        }
    }
}

/// The full listing holds exactly the ids with the wanted flag.
pub proof fn lemma_flagged_ids_to_set(flags: Seq<bool>, want: bool)
    requires
        flags.len() <= usize::MAX,
    ensures
        flagged_ids(flags, want, flags.len() as int).to_set() =~= Set::new(
            |i: usize| i < flags.len() && flags[i as int] == want,
        ),
{
    let s = flagged_ids(flags, want, flags.len() as int);
    lemma_flagged_ids(flags, want, flags.len() as int);
    assert forall|x: usize| s.to_set().contains(x) implies (x < flags.len() && flags[x as int]
        == want) by {
        let k = choose|k: int| 0 <= k < s.len() && s[k] == x;
        assert(s[k] < flags.len() && flags[s[k] as int] == want);
    }
    assert forall|x: usize| x < flags.len() && flags[x as int] == want implies s.to_set().contains(
        x,
    ) by {
        assert(s.contains(x));
    }
}

/// Relies on `rand::rng` and `RngExt::random_range` over `0..bound`: the
/// drawn value lies in the range. Nothing more is assumed of a random
/// result.
#[verifier::external_body]
fn random_below(bound: usize) -> (r: usize)
    requires
        bound > 0,
    ensures
        r < bound,
{
    rand::rng().random_range(0..bound)
}

/// The `j`-th of the contiguous chunks of `size` entries that a listing
/// splits into.
pub open spec fn chunk_of(ids: Seq<usize>, size: int, j: int) -> Seq<usize> {
    ids.subrange(j * size, (j + 1) * size)
}

/// A course's name matches a search key exactly when the lowercased key
/// occurs inside the lowercased name.
pub open spec fn name_matches(name: Seq<char>, searched: Seq<char>) -> bool {
    is_substring(lower_of(searched), lower_of(name))
}

/// `r` lists, in ascending order, exactly the course ids whose activity
/// flag equals `want` and whose name matches the search key.
pub open spec fn lists_matches(
    courses: Seq<Course>,
    flags: Seq<bool>,
    want: bool,
    searched: Seq<char>,
    r: Seq<usize>,
) -> bool {
    &&& forall|a: int, b: int| 0 <= a < b < r.len() ==> r[a] < r[b]
    &&& forall|k: int|
        0 <= k < r.len() ==> (#[trigger] r[k]) < flags.len() && flags[r[k] as int] == want
            && name_matches(courses[r[k] as int].name@, searched)
    &&& forall|i: int|
        0 <= i < flags.len() && #[trigger] flags[i] == want && name_matches(
            courses[i].name@,
            searched,
        ) ==> r.contains(i as usize)
}

/// Why an engine operation could not be performed. Every failure is
/// returned to the caller; the engine never retries or recovers on its own.
#[derive(Clone, Copy, Debug, PartialEq, Eq, Structural)]
pub enum EngineError {
    /// The id names no course of the catalog.
    OutOfRange,
    /// The course is active already, so there is nothing to activate.
    AlreadyActive,
    /// The course is removed already, so there is nothing to remove.
    AlreadyRemoved,
    /// No course is active, so nothing can be drawn.
    EmptyActiveSet,
    /// The number of active courses is not a positive multiple of the
    /// requested group count.
    NotEvenlyDivisible,
    /// There is no action to undo.
    NoHistory,
    /// There is no undone action to redo.
    NoFuture,
}

/// The complete persisted state of a course list, as plain data. The engine
/// produces and consumes it; a front-end serializes it however it likes.
#[derive(Debug)]
pub struct Snapshot {
    /// Name of the save the state belongs to.
    pub save_name: String,
    /// Ids of the active courses, ascending.
    pub active: Vec<usize>,
    /// Performed actions, most recent last.
    pub past: Vec<Action>,
    /// Undone actions, most recently undone last.
    pub future: Vec<Action>,
}

impl View for Snapshot {
    type V = SnapshotModel;

    open spec fn view(&self) -> SnapshotModel {
        SnapshotModel {
            save_name: self.save_name@,
            active: self.active@,
            past: self.past@,
            future: self.future@,
        }
    }
}

/// Law: the two listings are the two sides of the partition — the ids that
/// `get_current` returns form exactly the active set, and the ids that
/// `get_removed` returns form exactly its complement within the catalog.
pub proof fn lemma_listings_partition(cl: &CourseList)
    requires
        cl.wf(),
    ensures
        cl.active_ids().to_set() =~= cl@.active,
        cl.removed_ids().to_set() =~= removed_of(cl@),
{
    lemma_flagged_ids_to_set(cl.current@, true);
    lemma_flagged_ids_to_set(cl.current@, false);
}

fn copy_actions(v: &Vec<Action>) -> (r: Vec<Action>)
    ensures
        r@ == v@,
{
    let mut r: Vec<Action> = Vec::new();
    let mut i: usize = 0;
    while i < v.len()
        invariant
            i <= v@.len(),
            r@ == v@.subrange(0, i as int),
        decreases v@.len() - i,
    {
        proof {
            assert(v@.subrange(0, i as int).push(v@[i as int]) =~= v@.subrange(0, i as int + 1));
        }
        r.push(v[i]);
        i += 1;
    }
    proof {
        assert(r@ =~= v@);
    }
    r
}

fn actions_in_range(v: &Vec<Action>, n: usize) -> (r: bool)
    ensures
        r == forall|k: int| 0 <= k < v@.len() ==> action_id(#[trigger] v@[k]) < n,
{
    let mut i: usize = 0;
    while i < v.len()
        invariant
            i <= v@.len(),
            forall|k: int| 0 <= k < i ==> action_id(#[trigger] v@[k]) < n,
        decreases v@.len() - i,
    {
        let id = match v[i] {
            Action::Add(x) => x,
            Action::Remove(x) => x,
        };
        if id >= n {
            proof {
                assert(action_id(v@[i as int]) >= n);
            }
            return false;
        }
        i += 1;
    }
    true
}

/// Main course list struct: the catalog of courses, which of them are
/// active, the save name the list belongs to, and the history of moves.
#[derive(Debug)]
pub struct CourseList {
    /// List of all courses in the game. This should generally be set once
    /// and then left alone; a course's id is its position here, and courses
    /// should be listed by rank in descending order.
    pub courses: Vec<Course>,
    /// Name of the save this list belongs to, e.g. "save.json". The engine
    /// never touches the file system itself; the name is plain data carried
    /// for the front-end.
    pub save_name: String,
    /// `current[i]` is true exactly when course `i` is active. Kept one flag
    /// per course by `wf`; mutate it only through the list's operations.
    pub current: Vec<bool>,
    /// The undo/redo log of partition moves.
    pub history: History,
}

impl View for CourseList {
    type V = EngineModel;

    open spec fn view(&self) -> EngineModel {
        EngineModel {
            n: self.courses.len(),
            active: Set::new(|i: usize| i < self.current.len() && self.current[i as int]),
            past: self.history.past@,
            future: self.history.future@,
        }
    }
}

impl CourseList {
    /// The struct invariant: one activity flag per course, and every id the
    /// history mentions names a course.
    pub open spec fn wf(&self) -> bool {
        &&& self.current.len() == self.courses.len()
        &&& wf_model(self@)
    }

    /// Create an empty `CourseList` with the given `save_name`.
    pub fn new(save_name: String) -> (r: CourseList)
        ensures
            r.wf(),
            r.save_name@ == save_name@,
            r@ =~= (EngineModel {
                n: 0,
                active: Set::empty(),
                past: Seq::empty(),
                future: Seq::empty(),
            }),
    {
        CourseList {
            courses: Vec::new(),
            save_name,
            current: Vec::new(),
            history: History::new(),
        }
    }

    /// Build a fresh list over the given catalog: every course active and no
    /// history, as a newly started session has it.
    pub fn from_catalog(courses: Vec<Course>, save_name: String) -> (r: CourseList)
        ensures
            r.wf(),
            r.courses@ == courses@,
            r.save_name@ == save_name@,
            r@ =~= (EngineModel {
                n: courses.len(),
                active: crate::courses::model::all_ids(courses.len()),
                past: Seq::empty(),
                future: Seq::empty(),
            }),
    {
        let n = courses.len();
        let mut current: Vec<bool> = Vec::new();
        let mut i: usize = 0;
        while i < n
            invariant
                i <= n,
                current.len() == i,
                forall|k: int| 0 <= k < i ==> current[k],
            decreases n - i,
        {
            current.push(true);
            i += 1;
        }
        CourseList { courses, save_name, current, history: History::new() }
    }

    /// Look a course up by id. Fails with `OutOfRange` exactly when the id
    /// names no course of the catalog.
    pub fn get_course(&self, course_i: usize) -> (r: Result<&Course, EngineError>)
        ensures
            r is Ok <==> course_i < self.courses@.len(),
            r matches Ok(c) ==> *c == self.courses@[course_i as int],
    {
        if course_i < self.courses.len() {
            Ok(&self.courses[course_i])
        } else {
            Err(EngineError::OutOfRange)
        }
    }

    /// Get a view of the action history.
    pub fn get_history(&self) -> (r: &History)
        ensures
            r == &self.history,
    {
        &self.history
    }

    fn inner_add(&mut self, course_i: usize)
        requires
            course_i < old(self).current.len(),
        ensures
            final(self).current@ == old(self).current@.update(course_i as int, true),
            final(self).courses == old(self).courses,
            final(self).save_name == old(self).save_name,
            final(self).history == old(self).history,
    {
        self.current.set(course_i, true);
    }

    fn inner_remove(&mut self, course_i: usize)
        requires
            course_i < old(self).current.len(),
        ensures
            final(self).current@ == old(self).current@.update(course_i as int, false),
            final(self).courses == old(self).courses,
            final(self).save_name == old(self).save_name,
            final(self).history == old(self).history,
    {
        self.current.set(course_i, false);
    }

    /// Move a previously removed course back into the active set and record
    /// the move, which clears any redo history. Fails with `OutOfRange` when
    /// the id names no course, and with `AlreadyActive` when the course did
    /// not need the move; on failure nothing changes.
    pub fn add(&mut self, course_i: usize) -> (r: Result<(), EngineError>)
        requires
            old(self).wf(),
        ensures
            final(self).wf(),
            final(self).courses == old(self).courses,
            final(self).save_name == old(self).save_name,
            course_i >= old(self)@.n ==> r == Err::<(), EngineError>(EngineError::OutOfRange)
                && final(self)@ =~= old(self)@,
            course_i < old(self)@.n && old(self)@.active.contains(course_i) ==> r == Err::<(),
                EngineError,
            >(EngineError::AlreadyActive) && final(self)@ =~= old(self)@,
            course_i < old(self)@.n && !old(self)@.active.contains(course_i) ==> r == Ok::<(),
                EngineError,
            >(()) && final(self)@ =~= activate_step(old(self)@, course_i),
    {
        if course_i >= self.courses.len() {
            return Err(EngineError::OutOfRange);
        }
        if self.current[course_i] {
            return Err(EngineError::AlreadyActive);
        }
        self.inner_add(course_i);
        self.history.push(Action::Add(course_i));
        proof {
            lemma_steps_preserve_wf(old(self)@, course_i);
            assert(self@ =~= activate_step(old(self)@, course_i));
        }
        Ok(())
    }

    /// Move an active course out of the active set and record the move,
    /// which clears any redo history. Fails with `OutOfRange` when the id
    /// names no course, and with `AlreadyRemoved` when the course was not
    /// active; on failure nothing changes.
    pub fn remove(&mut self, course_i: usize) -> (r: Result<(), EngineError>)
        requires
            old(self).wf(),
        ensures
            final(self).wf(),
            final(self).courses == old(self).courses,
            final(self).save_name == old(self).save_name,
            course_i >= old(self)@.n ==> r == Err::<(), EngineError>(EngineError::OutOfRange)
                && final(self)@ =~= old(self)@,
            course_i < old(self)@.n && !old(self)@.active.contains(course_i) ==> r == Err::<(),
                EngineError,
            >(EngineError::AlreadyRemoved) && final(self)@ =~= old(self)@,
            course_i < old(self)@.n && old(self)@.active.contains(course_i) ==> r == Ok::<(),
                EngineError,
            >(()) && final(self)@ =~= deactivate_step(old(self)@, course_i),
    {
        if course_i >= self.courses.len() {
            return Err(EngineError::OutOfRange);
        }
        if !self.current[course_i] {
            return Err(EngineError::AlreadyRemoved);
        }
        self.inner_remove(course_i);
        self.history.push(Action::Remove(course_i));
        proof {
            lemma_steps_preserve_wf(old(self)@, course_i);
            assert(self@ =~= deactivate_step(old(self)@, course_i));
        }
        Ok(())
    }

    fn apply_action(&mut self, action: Action)
        requires
            action_id(action) < old(self).current.len(),
        ensures
            final(self).current@ == (match action {
                Action::Add(i) => old(self).current@.update(i as int, true),
                Action::Remove(i) => old(self).current@.update(i as int, false),
            }),
            final(self).courses == old(self).courses,
            final(self).save_name == old(self).save_name,
            final(self).history == old(self).history,
    {
        match action {
            Action::Add(i) => self.inner_add(i),
            Action::Remove(i) => self.inner_remove(i),
        }
    }

    fn undo_action(&mut self, action: Action)
        requires
            action_id(action) < old(self).current.len(),
        ensures
            final(self).current@ == (match action {
                Action::Add(i) => old(self).current@.update(i as int, false),
                Action::Remove(i) => old(self).current@.update(i as int, true),
            }),
            final(self).courses == old(self).courses,
            final(self).save_name == old(self).save_name,
            final(self).history == old(self).history,
    {
        match action {
            Action::Add(i) => self.inner_remove(i),
            Action::Remove(i) => self.inner_add(i),
        }
    }

    /// Undo the most recent action by applying its inverse, park it on the
    /// redo stack, and return it. Fails with `NoHistory`, changing nothing,
    /// when there is nothing to undo.
    pub fn roll_back(&mut self) -> (r: Result<Action, EngineError>)
        requires
            old(self).wf(),
        ensures
            final(self).wf(),
            final(self).courses == old(self).courses,
            final(self).save_name == old(self).save_name,
            old(self)@.past.len() == 0 ==> r == Err::<Action, EngineError>(EngineError::NoHistory)
                && final(self)@ =~= old(self)@,
            old(self)@.past.len() > 0 ==> r == Ok::<Action, EngineError>(old(self)@.past.last())
                && final(self)@ =~= undo_step(old(self)@),
    {
        let action = match self.history.back() {
            Some(a) => a,
            None => {
                return Err(EngineError::NoHistory);
            },
        };
        proof {
            assert(action == old(self)@.past[old(self)@.past.len() - 1]);
            assert(action_id(action) < old(self)@.n);
        }
        self.undo_action(action);
        proof {
            lemma_steps_preserve_wf(old(self)@, 0);
            assert(self@ =~= undo_step(old(self)@));
        }
        Ok(action)
    }

    /// Redo the most recently undone action in its original direction, push
    /// it back onto the undo stack, and return it. Fails with `NoFuture`,
    /// changing nothing, when there is nothing to redo.
    pub fn roll_forward(&mut self) -> (r: Result<Action, EngineError>)
        requires
            old(self).wf(),
        ensures
            final(self).wf(),
            final(self).courses == old(self).courses,
            final(self).save_name == old(self).save_name,
            old(self)@.future.len() == 0 ==> r == Err::<Action, EngineError>(
                EngineError::NoFuture,
            ) && final(self)@ =~= old(self)@,
            old(self)@.future.len() > 0 ==> r == Ok::<Action, EngineError>(
                old(self)@.future.last(),
            ) && final(self)@ =~= redo_step(old(self)@),
    {
        let action = match self.history.forward() {
            Some(a) => a,
            None => {
                return Err(EngineError::NoFuture);
            },
        };
        proof {
            assert(action == old(self)@.future[old(self)@.future.len() - 1]);
            assert(action_id(action) < old(self)@.n);
        }
        self.apply_action(action);
        proof {
            lemma_steps_preserve_wf(old(self)@, 0);
            assert(self@ =~= redo_step(old(self)@));
        }
        Ok(action)
    }

    /// The active course ids in ascending order.
    pub open spec fn active_ids(&self) -> Seq<usize> {
        flagged_ids(self.current@, true, self.current.len() as int)
    }

    /// The removed course ids in ascending order.
    pub open spec fn removed_ids(&self) -> Seq<usize> {
        flagged_ids(self.current@, false, self.current.len() as int)
    }

    /// Get the ids of the active courses, in ascending order.
    pub fn get_current(&self) -> (r: Vec<usize>)
        requires
            self.wf(),
        ensures
            r@ == self.active_ids(),
    {
        let n = self.current.len();
        let mut r: Vec<usize> = Vec::new();
        let mut i: usize = 0;
        while i < n
            invariant
                i <= n,
                n == self.current.len(),
                r@ == flagged_ids(self.current@, true, i as int),
            decreases n - i,
        {
            if self.current[i] {
                r.push(i);
            }
            i += 1;
        }
        r
    }

    /// Get the ids of the removed courses, in ascending order.
    pub fn get_removed(&self) -> (r: Vec<usize>)
        requires
            self.wf(),
        ensures
            r@ == self.removed_ids(),
    {
        let n = self.current.len();
        let mut r: Vec<usize> = Vec::new();
        let mut i: usize = 0;
        while i < n
            invariant
                i <= n,
                n == self.current.len(),
                r@ == flagged_ids(self.current@, false, i as int),
            decreases n - i,
        {
            if !self.current[i] {
                r.push(i);
            }
            i += 1;
        }
        r
    }

    /// Search the active courses by name; `searched` is case-insensitive.
    /// The matching ids come back in ascending order.
    pub fn search_current(&self, searched: &str) -> (r: Vec<usize>)
        requires
            self.wf(),
        ensures
            lists_matches(self.courses@, self.current@, true, searched@, r@),
    {
        self.search_flagged(searched, true)
    }

    /// Search the removed courses by name; `searched` is case-insensitive.
    /// The matching ids come back in ascending order.
    pub fn search_removed(&self, searched: &str) -> (r: Vec<usize>)
        requires
            self.wf(),
        ensures
            lists_matches(self.courses@, self.current@, false, searched@, r@),
    {
        self.search_flagged(searched, false)
    }

    fn search_flagged(&self, searched: &str, want: bool) -> (r: Vec<usize>)
        requires
            self.wf(),
        ensures
            lists_matches(self.courses@, self.current@, want, searched@, r@),
    {
        let key = lowercase(searched);
        let n = self.courses.len();
        let mut r: Vec<usize> = Vec::new();
        let mut i: usize = 0;
        while i < n
            invariant
                i <= n,
                n == self.courses.len(),
                n == self.current.len(),
                key@ == lower_of(searched@),
                forall|a: int, b: int| 0 <= a < b < r@.len() ==> r@[a] < r@[b],
                forall|k: int|
                    0 <= k < r@.len() ==> (#[trigger] r@[k]) < i && self.current@[r@[k] as int]
                        == want && name_matches(self.courses@[r@[k] as int].name@, searched@),
                forall|j: int|
                    0 <= j < i && #[trigger] self.current@[j] == want && name_matches(
                        self.courses@[j].name@,
                        searched@,
                    ) ==> r@.contains(j as usize),
            decreases n - i,
        {
            let ghost r0 = r@;
            if self.current[i] == want {
                let lname = lowercase(self.courses[i].name.as_str());
                if contains_sub(lname.as_str(), key.as_str()) {
                    r.push(i);
                }
            }
            proof {
                assert forall|j: int|
                    0 <= j < i + 1 && #[trigger] self.current@[j] == want && name_matches(
                        self.courses@[j].name@,
                        searched@,
                    ) implies r@.contains(j as usize) by {
                    if j < i {
                        assert(r0.contains(j as usize));
                        let w = choose|w: int| 0 <= w < r0.len() && r0[w] == j as usize;
                        assert(r@[w] == j as usize);
                    } else {
                        assert(r@[r@.len() - 1] == i);
                    }
                }
            }
            i += 1;
        }
        r
    }

    /// Get one active course id, drawn at random. A pure query: the
    /// partition and history are untouched; the caller decides whether to
    /// follow up with `remove`. Fails with `EmptyActiveSet` when no course
    /// is active.
    pub fn get_random(&self) -> (r: Result<usize, EngineError>)
        requires
            self.wf(),
        ensures
            r is Ok <==> self@.active != Set::<usize>::empty(),
            r is Err ==> r == Err::<usize, EngineError>(EngineError::EmptyActiveSet),
            r matches Ok(id) ==> self@.active.contains(id),
    {
        let ids = self.get_current();
        proof {
            lemma_flagged_ids(self.current@, true, self.current.len() as int);
        }
        if ids.len() == 0 {
            proof {
                assert forall|i: usize| !self@.active.contains(i) by {
                    if i < self.current.len() && self.current@[i as int] {
                        assert(self.active_ids().contains(i));
                    }
                }
                assert(self@.active =~= Set::<usize>::empty());
            }
            return Err(EngineError::EmptyActiveSet);
        }
        let k = random_below(ids.len());
        let id = ids[k];
        proof {
            assert(self@.active.contains(id));
        }
        Ok(id)
    }

    /// Split the active courses, in ascending id order, into `num_chunks`
    /// contiguous chunks of equal size, then draw one id at random from
    /// each chunk. A pure query: the partition and history are untouched;
    /// committing the draw is left to the caller. Fails with
    /// `NotEvenlyDivisible` unless the number of active courses is a
    /// positive multiple of `num_chunks`.
    pub fn get_random_by_chunks(&self, num_chunks: usize) -> (r: Result<
        Vec<usize>,
        EngineError,
    >)
        requires
            self.wf(),
        ensures
            r is Ok <==> num_chunks > 0 && self.active_ids().len() > 0 && self.active_ids().len()
                % (num_chunks as nat) == 0,
            r is Err ==> r == Err::<Vec<usize>, EngineError>(EngineError::NotEvenlyDivisible),
            r matches Ok(picks) ==> {
                let size = self.active_ids().len() as int / num_chunks as int;
                &&& picks@.len() == num_chunks
                &&& forall|j: int|
                    0 <= j < num_chunks ==> chunk_of(self.active_ids(), size, j).contains(
                        #[trigger] picks@[j],
                    )
            },
    {
        let curr_vec = self.get_current();
        let len = curr_vec.len();

        if num_chunks == 0 || len == 0 || len % num_chunks != 0 {
            return Err(EngineError::NotEvenlyDivisible);
        }
        let chunk_size = len / num_chunks;
        proof {
            vstd::arithmetic::div_mod::lemma_fundamental_div_mod(len as int, num_chunks as int);
            assert(len as int == num_chunks as int * chunk_size as int);
            assert(chunk_size > 0) by {
                if chunk_size == 0 {
                    assert(len as int == num_chunks as int * 0);
                }
            }
        }

        let mut res: Vec<usize> = Vec::new();
        let mut j: usize = 0;
        while j < num_chunks
            invariant
                j <= num_chunks,
                0 < num_chunks,
                0 < chunk_size,
                len == curr_vec.len(),
                curr_vec@ == self.active_ids(),
                chunk_size == len as int / num_chunks as int,
                len as int == num_chunks as int * chunk_size as int,
                res@.len() == j,
                forall|jj: int|
                    0 <= jj < j ==> chunk_of(curr_vec@, chunk_size as int, jj).contains(
                        #[trigger] res@[jj],
                    ),
            decreases num_chunks - j,
        {
            proof {
                assert((j as int + 1) * chunk_size as int <= len as int
                    && (j as int + 1) * chunk_size as int == j as int * chunk_size as int
                    + chunk_size as int) by (nonlinear_arith)
                    requires
                        j as int + 1 <= num_chunks as int,
                        len as int == num_chunks as int * chunk_size as int,
                        chunk_size as int > 0,
                ;
            }
            let m = random_below(chunk_size);
            let idx = j * chunk_size + m;
            let pick = curr_vec[idx];
            let ghost res0 = res@;
            res.push(pick);
            proof {
                assert(chunk_of(curr_vec@, chunk_size as int, j as int)[m as int] == curr_vec@[idx as int]);
                assert(chunk_of(curr_vec@, chunk_size as int, j as int).contains(pick));
                assert forall|jj: int|
                    0 <= jj < j + 1 implies chunk_of(curr_vec@, chunk_size as int, jj).contains(
                    #[trigger] res@[jj],
                ) by {
                    if jj < j {
                        assert(res@[jj] == res0[jj]);
                    } else {
                        assert(res@[jj] == pick);
                    }
                }
            }
            j += 1;
        }
        Ok(res)
    }

    /// Capture the complete persisted state: the save name, the active ids
    /// in ascending order, and both history stacks. `restore` rebuilds an
    /// engine with the same partition and history from it.
    pub fn snapshot(&self) -> (r: Snapshot)
        requires
            self.wf(),
        ensures
            snapshot_of(self@, self.save_name@, r@),
    {
        let active = self.get_current();
        proof {
            lemma_flagged_ids(self.current@, true, self.current.len() as int);
            lemma_flagged_ids_to_set(self.current@, true);
            assert(self.active_ids().to_set() =~= self@.active);
        }
        Snapshot {
            save_name: self.save_name.clone(),
            active,
            past: copy_actions(&self.history.past),
            future: copy_actions(&self.history.future),
        }
    }

    /// Rebuild a course list over the given catalog from a snapshot: the
    /// listed ids become active, every other id removed, and the history
    /// stacks are carried over. Fails with `OutOfRange`, building nothing,
    /// exactly when the snapshot mentions an id outside the catalog.
    pub fn restore(courses: Vec<Course>, snap: Snapshot) -> (r: Result<CourseList, EngineError>)
        ensures
            r is Ok <==> snapshot_valid(courses.len(), snap@),
            r is Err ==> r == Err::<CourseList, EngineError>(EngineError::OutOfRange),
            r matches Ok(cl) ==> {
                &&& cl.wf()
                &&& cl.courses@ == courses@
                &&& cl.save_name@ == snap.save_name@
                &&& cl@ =~= restore_model(courses.len(), snap@)
            },
    {
        let n = courses.len();

        let mut k: usize = 0;
        while k < snap.active.len()
            invariant
                k <= snap.active@.len(),
                n == courses@.len(),
                forall|kk: int| 0 <= kk < k ==> (#[trigger] snap.active@[kk]) < n,
            decreases snap.active@.len() - k,
        {
            if snap.active[k] >= n {
                proof {
                    assert(!snapshot_valid(courses.len(), snap@)) by {
                        assert((snap@.active[k as int]) >= n);
                    }
                }
                return Err(EngineError::OutOfRange);
            }
            k += 1;
        }
        if !actions_in_range(&snap.past, n) {
            proof {
                let bad = choose|kk: int|
                    0 <= kk < snap@.past.len() && action_id(snap@.past[kk]) >= n;
                assert(action_id(snap@.past[bad]) >= n);
            }
            return Err(EngineError::OutOfRange);
        }
        if !actions_in_range(&snap.future, n) {
            proof {
                let bad = choose|kk: int|
                    0 <= kk < snap@.future.len() && action_id(snap@.future[kk]) >= n;
                assert(action_id(snap@.future[bad]) >= n);
            }
            return Err(EngineError::OutOfRange);
        }

        let mut current: Vec<bool> = Vec::new();
        let mut i: usize = 0;
        while i < n
            invariant
                i <= n,
                current@.len() == i,
                forall|j: int| 0 <= j < i ==> !(#[trigger] current@[j]),
            decreases n - i,
        {
            current.push(false);
            i += 1;
        }

        let mut k: usize = 0;
        while k < snap.active.len()
            invariant
                k <= snap.active@.len(),
                current@.len() == n,
                forall|kk: int| 0 <= kk < snap.active@.len() ==> (#[trigger] snap.active@[kk])
                    < n,
                forall|j: int|
                    0 <= j < n ==> ((#[trigger] current@[j]) <==> exists|kk: int|
                        0 <= kk < k && (#[trigger] snap.active@[kk]) as int == j),
            decreases snap.active@.len() - k,
        {
            let id = snap.active[k];
            let ghost c0 = current@;
            current.set(id, true);
            proof {
                assert forall|j: int|
                    0 <= j < n implies ((#[trigger] current@[j]) <==> exists|kk: int|
                    0 <= kk < k + 1 && (#[trigger] snap.active@[kk]) as int == j) by {
                    if j == id as int {
                        assert(current@[j]);
                        assert((snap.active@[k as int]) as int == j);
                    } else {
                        assert(current@[j] == c0[j]);
                    }
                }
            }
            k += 1;
        }

        let Snapshot { save_name, active: _, past, future } = snap;
        let cl = CourseList { courses, save_name, current, history: History { past, future } };
        proof {
            assert forall|x: usize| snap@.active.to_set().contains(x) implies cl@.active.contains(
                x,
            ) by {
                let kk = choose|kk: int|
                    0 <= kk < snap@.active.len() && snap@.active[kk] == x;
                assert((snap@.active[kk]) as int == x as int);
            }
            assert(cl@.active =~= snap@.active.to_set());
            assert(cl@ =~= restore_model(cl.courses.len(), snap@));
        }
        Ok(cl)
    }

    /// Make every course active again and clear all history. This is a full
    /// reset of the session, not an undoable action.
    pub fn reset(&mut self)
        requires
            old(self).wf(),
        ensures
            final(self).wf(),
            final(self).courses == old(self).courses,
            final(self).save_name == old(self).save_name,
            final(self)@ =~= reset_step(old(self)@),
    {
        let n = self.courses.len();
        let ghost courses0 = self.courses;
        let ghost save0 = self.save_name;
        let mut i: usize = 0;
        while i < n
            invariant
                i <= n,
                self.current.len() == n,
                self.courses == courses0,
                self.save_name == save0,
                n == self.courses.len(),
                forall|k: int| 0 <= k < i ==> self.current[k],
            decreases n - i,
        {
            self.current.set(i, true);
            i += 1;
        }
        self.history.reset();
        proof {
            lemma_steps_preserve_wf(old(self)@, 0);
            assert(self@ =~= reset_step(old(self)@));
        }
    }
}

} // verus!
