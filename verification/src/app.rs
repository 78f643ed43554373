//! The full-screen front-end's state: which screen is shown, the course
//! list the session works on, and whether the user asked to leave. Key
//! handling is a pure transition on this state; the terminal plumbing
//! around it lives outside the library.

use vstd::prelude::*;

use crate::courses::course_list::CourseList;

verus! {

/// Which screen the front-end currently shows.
#[derive(Clone, Copy, Debug, PartialEq, Eq, Structural)]
pub enum CurrentScreen {
    /// Loading screen.
    Load,
    /// Displays the active courses.
    Current,
    /// Displays the removed courses.
    Removed,
    /// Filter the active courses.
    SearchCurrent,
    /// Filter the removed courses.
    SearchRemoved,
    /// The tiered sublist.
    Tiered,
    /// Quit confirmation screen.
    Quitting,
}

/// The front-end state.
#[derive(Debug)]
pub struct App {
    /// Which screen is shown.
    pub current_screen: CurrentScreen,
    /// The course list the session works on.
    pub course_list: CourseList,
    /// Set once the user asked to leave.
    pub quit: bool,
}

impl App {
    /// A fresh session: an empty course list on the loading screen.
    pub fn new() -> (r: App)
        ensures
            r.course_list.wf(),
            r.course_list.courses@.len() == 0,
            r.current_screen is Load,
            !r.quit,
    {
        App {
            course_list: CourseList::new(String::new()),
            current_screen: CurrentScreen::Load,
            quit: false,
        }
    }

    /// Ask to leave the session.
    pub fn quit(&mut self)
        ensures
            final(self).quit,
            final(self).current_screen == old(self).current_screen,
            final(self).course_list == old(self).course_list,
    {
        self.quit = true;
    }

    /// Show the loading screen.
    pub fn load_screen(&mut self)
        ensures
            final(self).current_screen is Load,
            final(self).quit == old(self).quit,
            final(self).course_list == old(self).course_list,
    {
        self.current_screen = CurrentScreen::Load;
    }

    /// Show the active courses.
    pub fn in_screen(&mut self)
        ensures
            final(self).current_screen is Current,
            final(self).quit == old(self).quit,
            final(self).course_list == old(self).course_list,
    {
        self.current_screen = CurrentScreen::Current;
    }

    /// Show the removed courses.
    pub fn out_screen(&mut self)
        ensures
            final(self).current_screen is Removed,
            final(self).quit == old(self).quit,
            final(self).course_list == old(self).course_list,
    {
        self.current_screen = CurrentScreen::Removed;
    }

    /// React to one key press: on the quit-confirmation screen `y` confirms
    /// leaving, on every other screen `q` asks to leave, and any other key
    /// does nothing.
    pub fn handle_key(&mut self, key: char)
        ensures
            final(self).current_screen == old(self).current_screen,
            final(self).course_list == old(self).course_list,
            final(self).quit == (old(self).quit || (if old(self).current_screen is Quitting {
                key == 'y'
            } else {
                key == 'q'
            })),
    {
        match self.current_screen {
            CurrentScreen::Quitting => {
                if key == 'y' {
                    self.quit();
                }
            },
            _ => {
                if key == 'q' {
                    self.quit();
                }
            },
        }
    }
}

} // verus!
