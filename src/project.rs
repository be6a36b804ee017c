//! The project selector: a list of the projects with hours and a cursor.

use crate::model::{ActiveView, Key, Message};
use crate::store::{Project, Store};
use vstd::prelude::*;

verus! {

#[derive(Debug, Clone, Copy, PartialEq, Eq, Hash, Structural)]
pub enum ProjectMessage {
    Open,
    Return,
}

/// State of the project selector; `selected` is the highlighted row.
#[derive(Debug)]
pub struct ProjectModel {
    pub selected: usize,
    pub projects: Vec<Project>,
}

/// A copy of the project with the same id and name.
fn copy_project(p: &Project) -> (r: Project)
    ensures
        r@ == p@,
{
    Project { project_id: p.project_id.clone(), project_name: p.project_name.clone() }
}

impl ProjectModel {
    /// The cursor is on a row, or at zero on an empty list.
    pub open spec fn wf(&self) -> bool {
        self.selected < self.projects@.len() || self.selected == 0
    }

    pub fn new() -> (r: ProjectModel)
        ensures
            r.wf(),
            r.selected == 0,
            r.projects@.len() == 0,
    {
        ProjectModel { selected: 0, projects: Vec::new() }
    }

    /// Loads the project list from the store; the cursor stays where it
    /// still names a row, else it goes to the first.
    pub fn set_projects(&mut self, store: &Store)
        ensures
            final(self).wf(),
            final(self).projects@.len() == store.projects_spec().len(),
            forall|i: int|
                0 <= i < final(self).projects@.len() ==> (#[trigger] final(self).projects@[i])@
                    == store.projects_spec()[i],
            final(self).selected == if old(self).selected < final(self).projects@.len() {
                old(self).selected
            } else {
                0
            },
    {
        self.projects = store.projects();
        if self.selected >= self.projects.len() {
            self.selected = 0;
        }
    }

    /// Moves the cursor one row down, stopping at the last row.
    pub fn next_row(&mut self)
        requires
            old(self).wf(),
        ensures
            final(self).wf(),
            final(self).projects == old(self).projects,
            final(self).selected == if old(self).selected + 1 < old(self).projects@.len() {
                old(self).selected + 1
            } else {
                old(self).selected as int
            },
    {
        if self.selected < self.projects.len() && self.projects.len() - self.selected > 1 {
            self.selected = self.selected + 1;
        }
    }

    /// Moves the cursor one row up, stopping at the first row.
    pub fn previous_row(&mut self)
        requires
            old(self).wf(),
        ensures
            final(self).wf(),
            final(self).projects == old(self).projects,
            final(self).selected == if old(self).selected == 0 {
                0
            } else {
                old(self).selected - 1
            },
    {
        if self.selected > 0 {
            self.selected = self.selected - 1;
        }
    }

    /// The highlighted project, if the list is not empty.
    pub fn set_active_project(&self) -> (r: Option<Project>)
        requires
            self.wf(),
        ensures
            match r {
                Some(p) => self.selected < self.projects@.len() && p@
                    == self.projects@[self.selected as int]@,
                None => self.projects@.len() == 0,
            },
    {
        if self.selected < self.projects.len() {
            Some(copy_project(&self.projects[self.selected]))
        } else {
            None
        }
    }
}

/// The message asks to set this project as the active one.
pub open spec fn sets_active(r: Option<Message>, p: (Seq<char>, Seq<char>)) -> bool {
    match r {
        Some(Message::ActiveProject(Some(q))) => q@ == p,
        _ => false,
    }
}

/// What a key press does to the project selector and which message it gives.
pub open spec fn key_effect(before: ProjectModel, key: Key, after: ProjectModel, r: Option<Message>) -> bool {
    &&& after.wf()
    &&& after.projects == before.projects
    &&& key != Key::Char('j') && key != Key::Char('k') ==> after.selected == before.selected
    &&& match key {
        Key::Char('H') => r == Some(Message::Home),
        Key::Char('j') => r is None && after.selected == if before.selected + 1
            < before.projects@.len() {
            before.selected + 1
        } else {
            before.selected as int
        },
        Key::Char('k') => r is None && after.selected == if before.selected == 0 {
            0
        } else {
            before.selected - 1
        },
        Key::Char('x') => r == Some(Message::ActiveProject(None)),
        Key::Enter => if before.projects@.len() == 0 {
            r is None
        } else {
            sets_active(r, before.projects@[before.selected as int]@)
        },
        _ => r is None,
    }
}

/// A key press in the project selector: `j` and `k` move the cursor, `Enter`
/// picks the highlighted project, `x` clears the active project and `H`
/// goes home.
pub fn handle_key(key: Key, model: &mut ProjectModel) -> (r: Option<Message>)
    requires
        old(model).wf(),
    ensures
        key_effect(*old(model), key, *final(model), r),
{
    match key {
        Key::Char('H') => Some(Message::Home),
        Key::Char('j') => {
            model.next_row();
            None
        },
        Key::Char('k') => {
            model.previous_row();
            None
        },
        Key::Char('x') => Some(Message::ActiveProject(None)),
        Key::Enter => match model.set_active_project() {
            Some(p) => Some(Message::ActiveProject(Some(p))),
            None => None,
        },
        _ => None,
    }
}

/// Messages of the project selector: `Open` loads the project list; both
/// show the selector.
pub fn update(model: &mut ProjectModel, store: &Store, msg: ProjectMessage) -> (r: Option<Message>)
    requires
        old(model).wf(),
    ensures
        final(model).wf(),
        r == Some(Message::View(ActiveView::Hours)),
        msg == ProjectMessage::Return ==> *final(model) == *old(model),
        msg == ProjectMessage::Open ==> final(model).projects@.len() == store.projects_spec().len(),
        msg == ProjectMessage::Open ==> final(model).selected == if old(model).selected < final(
            model).projects@.len() {
            old(model).selected
        } else {
            0
        },
        msg == ProjectMessage::Open ==> forall|i: int|
            0 <= i < final(model).projects@.len() ==> (#[trigger] final(model).projects@[i])@
                == store.projects_spec()[i],
{
    match msg {
        ProjectMessage::Return => Some(Message::View(ActiveView::Hours)),
        ProjectMessage::Open => {
            model.set_projects(store);
            Some(Message::View(ActiveView::Hours))
        },
    }
}

} // verus!
