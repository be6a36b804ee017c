//! The application model, its messages, and the update engine.

use crate::api::{Api, Hours, TimetEntry};
use crate::calendar::Date;
use crate::config::Config;
use crate::hours::{self, HoursMessage, HoursModel};
use crate::project::{self, ProjectMessage, ProjectModel};
use crate::refresh::RefreshRun;
use crate::store::{
    detail_rows, has_project, import_error, is_yearly_overview, project_name_of, timet_views,
    upsert_all, with_hours, EntryView, Month, Project, Store, StoreError, Year,
};
use crate::text::push_text;
use vstd::prelude::*;

verus! {

#[derive(Debug, Clone, Copy, PartialEq, Eq, Hash, Structural)]
pub enum ActiveView {
    Home,
    Loading,
    Month,
    /// The project selector.
    Hours,
    /// The hours entry.
    LogHours,
}

#[derive(Debug, Clone, Copy, Default, PartialEq, Eq, Structural)]
pub enum RunningState {
    #[default]
    Running,
    Done,
}

/// A key press, as far as the widgets read it.
#[derive(Debug, Clone, Copy, PartialEq, Eq, Structural)]
pub enum Key {
    Char(char),
    Enter,
    Backspace,
    Other,
}

#[derive(Debug)]
pub enum Message {
    View(ActiveView),
    Home,
    Hours(ProjectMessage),
    AddHours(HoursMessage),
    ActiveProject(Option<Project>),
    RefreshStarted,
    RefreshProgressing(u32),
    /// Every month of a refresh arrived: the entries, in order.
    RefreshFetched(Vec<TimetEntry>),
    RefreshCompleted,
    RefreshFailed(String),
    DetailMonth,
    Quit,
}

/// Outside work the model asks for; the caller performs it.
pub enum Command {
    /// Run a refresh, sending its messages back.
    Refresh(RefreshRun),
    /// Send the hours to the remote service, then report with
    /// `Model::hours_posted`.
    PostHours(Hours),
}

/// The application state.
#[derive(Debug)]
pub struct Model {
    pub config: Config,
    pub api: Api,
    pub store: Store,
    pub register_model: ProjectModel,
    pub add_hours_model: HoursModel,
    pub active_error_msg: Option<String>,
    pub running_state: RunningState,
    /// Today, as of the start.
    pub now: Date,
    pub active_view: ActiveView,
    pub projects: Vec<Project>,
    pub active_project: Option<Project>,
    pub active_year: i32,
    pub active_month: u32,
    pub update_month: u32,
    pub overview: Vec<Year>,
    pub overview_month: Vec<Month>,
    /// The highlighted row of the overview.
    pub selected: usize,
    /// A refresh is under way.
    pub refreshing: bool,
    /// A refresh was asked for and not yet handed out.
    pub refresh_requested: bool,
}

impl Model {
    pub open spec fn wf(&self) -> bool {
        &&& self.store.wf()
        &&& self.overview@.len() == 12
        &&& self.selected < self.overview@.len()
        &&& self.add_hours_model.wf()
        &&& self.register_model.wf()
        &&& 1 <= self.now.month <= 12
    }

    /// The month detail shows month `active_month` of `active_year`.
    pub open spec fn detail_shown(&self) -> bool {
        self.overview_month@.map_values(|m: Month| m@) == detail_rows(
            self.store@.entries,
            self.active_year as int,
            self.active_month as int,
            self.store@.active,
        )
    }

    /// A model on the home view, with the overview of the current year and
    /// the active project that the store holds.
    pub fn new(api: Api, store: Store, config: Config, now: Date) -> (r: Model)
        requires
            store.wf(),
            1 <= now.month <= 12,
        ensures
            r.wf(),
            r.store@ == store@,
            r.active_view == ActiveView::Home,
            r.running_state == RunningState::Running,
            r.selected == 0,
            r.active_year == now.year,
            is_yearly_overview(r.overview@, r.store@, now.year as int),
            match store@.active {
                Some(p) => if has_project(store@.entries, p) {
                    r.active_project matches Some(q) && q@ == (p, project_name_of(store@.entries, p))
                } else {
                    r.active_project is None
                },
                None => r.active_project is None,
            },
            !r.refreshing,
            !r.refresh_requested,
            r.active_error_msg is None,
            r.config == config,
            r.api == api,
            r.now == now,
            r.active_month == 0,
            r.update_month == 0,
            r.overview_month@.len() == 0,
            r.projects@.len() == 0,
            r.register_model.selected == 0,
            r.register_model.projects@.len() == 0,
            r.add_hours_model.input@.len() == 0,
            r.add_hours_model.pending is None,
    {
        let overview = store.get_yearly_overview(now.year);
        let active_project = store.default_project();
        Model {
            config,
            api,
            store,
            register_model: ProjectModel::new(),
            add_hours_model: HoursModel::new(),
            active_error_msg: None,
            running_state: RunningState::Running,
            now,
            active_view: ActiveView::Home,
            projects: Vec::new(),
            active_project,
            active_year: now.year,
            active_month: 0,
            update_month: 0,
            overview,
            overview_month: Vec::new(),
            selected: 0,
            refreshing: false,
            refresh_requested: false,
        }
    }

    /// Asks for a refresh, unless one is under way. Returns at once.
    pub fn refresh(&mut self)
        requires
            old(self).wf(),
        ensures
            final(self).wf(),
            *final(self) == (Model {
                refreshing: true,
                refresh_requested: old(self).refresh_requested || !old(self).refreshing,
                ..*old(self)
            }),
    {
        if !self.refreshing {
            self.refreshing = true;
            self.refresh_requested = true;
        }
    }

    /// The model after row `row` was selected and its month's detail asked
    /// for: `active_month` is `row + 1`, the detail is loaded exactly where
    /// that month exists, and nothing else changes.
    pub open spec fn month_selected(self, row: int, after: Model, r: Result<(), StoreError>) -> bool {
        let month = (row + 1) as u32;
        &&& r is Ok <==> (Date { year: self.active_year, month, day: 1 }).is_valid()
        &&& match r {
            Ok(_) => {
                &&& after == Model {
                    selected: row as usize,
                    active_month: month,
                    overview_month: after.overview_month,
                    ..self
                }
                &&& after.detail_shown()
            },
            Err(e) => {
                &&& after == Model { selected: row as usize, active_month: month, ..self }
                &&& e == StoreError::InvalidMonth { year: self.active_year, month }
            },
        }
    }

    /// Row selected by `previous_row`.
    pub open spec fn row_above(self) -> int {
        if self.selected == 0 {
            0
        } else {
            self.selected - 1
        }
    }

    /// Row selected by `next_row`.
    pub open spec fn row_below(self) -> int {
        if self.selected + 1 < self.overview@.len() {
            self.selected + 1
        } else {
            self.selected as int
        }
    }

    /// Moves the selection one row down, stopping at the last row; nothing
    /// else changes.
    pub fn next_row(&mut self)
        requires
            old(self).wf(),
        ensures
            final(self).wf(),
            *final(self) == (Model { selected: old(self).row_below() as usize, ..*old(self) }),
    {
        if self.overview.len() - self.selected > 1 {
            self.selected = self.selected + 1;
        }
    }

    /// Moves the selection one row up, stopping at the first row, and shows
    /// the detail of the month now selected.
    pub fn previous_row(&mut self) -> (r: Result<(), StoreError>)
        requires
            old(self).wf(),
        ensures
            final(self).wf(),
            old(self).month_selected(old(self).row_above(), *final(self), r),
    {
        if self.selected > 0 {
            self.selected = self.selected - 1;
        }
        self.set_active_month()
    }

    /// Takes the selected row as the active month (row 0 is January) and
    /// loads its detail; an error, changing nothing else, where the active
    /// year has no such month.
    pub fn set_active_month(&mut self) -> (r: Result<(), StoreError>)
        requires
            old(self).wf(),
        ensures
            final(self).wf(),
            old(self).month_selected(old(self).selected as int, *final(self), r),
    {
        self.active_month = self.selected as u32 + 1;
        let rows = self.store.get_month_overview(self.active_month, self.active_year)?;
        self.overview_month = rows;
        Ok(())
    }

    /// Loads the project list.
    pub fn set_projects(&mut self)
        requires
            old(self).wf(),
        ensures
            final(self).wf(),
            final(self).store == old(self).store,
            final(self).projects@.len() == old(self).store.projects_spec().len(),
            forall|i: int|
                0 <= i < final(self).projects@.len() ==> (#[trigger] final(self).projects@[i])@
                    == old(self).store.projects_spec()[i],
    {
        self.projects = self.store.projects();
    }

    /// Hands out the outside work that is waiting: a refresh of the months
    /// of the current year up to the current one, or hours to send, stamped
    /// with `today`.
    pub fn take_command(&mut self, today: Date) -> (r: Option<Command>)
        requires
            old(self).wf(),
        ensures
            final(self).wf(),
            final(self).store == old(self).store,
            !final(self).refresh_requested,
            old(self).refresh_requested ==> match r {
                Some(Command::Refresh(run)) => run.wf() && !run.finished && run.year == old(self).now.year as u32 && run.last_month == old(self).now.month && run.next_month == 1
                    && run.fetched@.len() == 0,
                _ => false,
            },
            !old(self).refresh_requested ==> match old(self).add_hours_model.pending {
                Some(h) => match r {
                    Some(Command::PostHours(post)) => post.hours == h && post.date == today
                        && post.project@ == old(self).add_hours_model.project@
                        && final(self).add_hours_model.pending == None::<u32>,
                    _ => false,
                },
                None => r is None,
            },
    {
        if self.refresh_requested {
            self.refresh_requested = false;
            return Some(Command::Refresh(RefreshRun::new(self.now.year as u32, self.now.month)));
        }
        match self.add_hours_model.take_pending() {
            Some(h) => Some(
                Command::PostHours(
                    Hours { project: self.add_hours_model.project.clone(), date: today, hours: h },
                ),
            ),
            None => None,
        }
    }

    /// Takes the answer of the remote service to hours sent. On success the
    /// hours are written to the cache as well, the entry is emptied and the
    /// overview reloaded; any failure is shown in the entry.
    pub fn hours_posted(&mut self, post: &Hours, outcome: Result<(), String>) -> (r: Option<
        Message,
    >)
        requires
            old(self).wf(),
        ensures
            final(self).wf(),
            match outcome {
                Err(t) => {
                    &&& *final(self) == *old(self)
                    &&& hours::reports_error(r, t@)
                },
                Ok(()) => if has_project(old(self).store@.entries, post.project@) {
                    &&& r == Some(Message::RefreshCompleted)
                    &&& *final(self) == (Model {
                        store: final(self).store,
                        add_hours_model: final(self).add_hours_model,
                        ..*old(self)
                    })
                    &&& final(self).store@.active == old(self).store@.active
                    &&& final(self).store@.entries == with_hours(
                        old(self).store@.entries,
                        post.project@,
                        post.hours,
                        post.date,
                    )
                    &&& final(self).add_hours_model.input@.len() == 0
                    &&& final(self).add_hours_model.character_index == 0
                    &&& final(self).add_hours_model.error_message is None
                    &&& final(self).add_hours_model.project@ == old(self).add_hours_model.project@
                    &&& final(self).add_hours_model.pending == old(self).add_hours_model.pending
                } else {
                    &&& *final(self) == (Model { store: final(self).store, ..*old(self) })
                    &&& final(self).store@ == old(self).store@
                    &&& hours::reports_error(r, unknown_project_text(post.project@))
                },
            },
    {
        match outcome {
            Err(t) => Some(Message::AddHours(HoursMessage::ValidationError(t))),
            Ok(()) => match self.store.insert_hours(post.project.as_str(), post.hours, post.date) {
                Ok(()) => {
                    self.add_hours_model.clear();
                    Some(Message::RefreshCompleted)
                },
                Err(e) => Some(Message::AddHours(HoursMessage::ValidationError(e.message()))),
            },
        }
    }
}

/// The message for hours sent for a project the cache does not know.
pub open spec fn unknown_project_text(p: Seq<char>) -> Seq<char> {
    "Unknown project "@ + p
}

/// The banner shown when hours are asked for without an active project.
pub open spec fn no_project_text() -> Seq<char> {
    "An active project must be set to log hours"@
}

impl Model {
    /// Maps a key press to a message. `q`, `H` and `l` act everywhere; other
    /// keys go to the widget of the active view, and on the home view `p`
    /// opens the project selector, `r` refreshes, `j`/`k` move the selection
    /// and `Enter` opens the month detail.
    pub fn handle_key(&mut self, key: Key) -> (r: Result<Option<Message>, StoreError>)
        requires
            old(self).wf(),
        ensures
            final(self).wf(),
            final(self).store == old(self).store,
            key == Key::Char('q') ==> r == Ok::<Option<Message>, StoreError>(Some(Message::Quit))
                && *final(self) == *old(self),
            key == Key::Char('H') ==> r == Ok::<Option<Message>, StoreError>(Some(Message::Home))
                && *final(self) == *old(self),
            key == Key::Char('l') ==> match old(self).active_project {
                Some(p) => *final(self) == *old(self) && match r {
                    Ok(Some(Message::AddHours(HoursMessage::Open(id)))) => id@ == p.project_id@,
                    _ => false,
                },
                None => {
                    &&& r == Ok::<Option<Message>, StoreError>(None)
                    &&& *final(self) == (Model {
                        active_error_msg: final(self).active_error_msg,
                        ..*old(self)
                    })
                    &&& match final(self).active_error_msg {
                        Some(b) => b@ == no_project_text(),
                        None => false,
                    }
                },
            },
            key != Key::Char('q') && key != Key::Char('H') && key != Key::Char('l')
                && old(self).active_view == ActiveView::Home ==> match key {
                Key::Char('p') => r == Ok::<Option<Message>, StoreError>(
                    Some(Message::Hours(ProjectMessage::Open)),
                ) && *final(self) == *old(self),
                Key::Char('r') => r == Ok::<Option<Message>, StoreError>(
                    Some(Message::RefreshStarted),
                ) && *final(self) == *old(self),
                Key::Char('j') => r == Ok::<Option<Message>, StoreError>(None) && *final(self) == (
                Model { selected: old(self).row_below() as usize, ..*old(self) }),
                Key::Char('k') => old(self).month_selected(
                    old(self).row_above(),
                    *final(self),
                    unit_of(r),
                ) && (r is Ok ==> r == Ok::<Option<Message>, StoreError>(None)),
                Key::Enter => old(self).month_selected(
                    old(self).selected as int,
                    *final(self),
                    unit_of(r),
                ) && (r is Ok ==> r == Ok::<Option<Message>, StoreError>(
                    Some(Message::DetailMonth),
                )),
                _ => r == Ok::<Option<Message>, StoreError>(None) && *final(self) == *old(self),
            },
            key != Key::Char('q') && key != Key::Char('H') && key != Key::Char('l') && old(
            self).active_view == ActiveView::LogHours ==> *final(self) == (Model {
                add_hours_model: final(self).add_hours_model,
                ..*old(self)
            }) && match r {
                Ok(m) => hours::key_effect(
                    old(self).add_hours_model,
                    key,
                    final(self).add_hours_model,
                    m,
                ),
                Err(_) => false,
            },
            key != Key::Char('q') && key != Key::Char('H') && key != Key::Char('l') && old(
            self).active_view == ActiveView::Hours ==> *final(self) == (Model {
                register_model: final(self).register_model,
                ..*old(self)
            }) && match r {
                Ok(m) => project::key_effect(
                    old(self).register_model,
                    key,
                    final(self).register_model,
                    m,
                ),
                Err(_) => false,
            },
            key != Key::Char('q') && key != Key::Char('H') && key != Key::Char('l') && (old(
            self).active_view == ActiveView::Loading || old(self).active_view == ActiveView::Month)
                ==> r == Ok::<Option<Message>, StoreError>(None) && *final(self) == *old(self),
    {
        match key {
            Key::Char('q') => Ok(Some(Message::Quit)),
            Key::Char('H') => Ok(Some(Message::Home)),
            Key::Char('l') => match &self.active_project {
                Some(p) => Ok(Some(Message::AddHours(HoursMessage::Open(p.project_id.clone())))),
                None => {
                    self.active_error_msg = Some(
                        "An active project must be set to log hours".to_owned(),
                    );
                    Ok(None)
                },
            },
            _ => match self.active_view {
                ActiveView::LogHours => Ok(hours::handle_key(key, &mut self.add_hours_model)),
                ActiveView::Hours => Ok(project::handle_key(key, &mut self.register_model)),
                ActiveView::Home => match key {
                    Key::Char('p') => Ok(Some(Message::Hours(ProjectMessage::Open))),
                    Key::Char('r') => Ok(Some(Message::RefreshStarted)),
                    Key::Char('j') => {
                        self.next_row();
                        Ok(None)
                    },
                    Key::Char('k') => {
                        self.previous_row()?;
                        Ok(None)
                    },
                    Key::Enter => {
                        self.set_active_month()?;
                        Ok(Some(Message::DetailMonth))
                    },
                    _ => Ok(None),
                },
                _ => Ok(None),
            },
        }
    }
}

impl Message {
    /// A refresh failure carrying this reason.
    pub open spec fn is_failure_with(self, reason: Seq<char>) -> bool {
        match self {
            Message::RefreshFailed(t) => t@ == reason,
            _ => false,
        }
    }

    /// The entries of a completed fetch, in this order.
    pub open spec fn is_fetched_with(self, items: Seq<TimetEntry>) -> bool {
        match self {
            Message::RefreshFetched(all) => all@ == items,
            _ => false,
        }
    }
}

/// The outcome of an update with the follow-up message dropped.
pub open spec fn unit_of(r: Result<Option<Message>, StoreError>) -> Result<(), StoreError> {
    match r {
        Ok(_) => Ok(()),
        Err(e) => Err(e),
    }
}

impl Message {
    /// Falls strictly along every chain of follow-up messages, so that
    /// feeding them back always ends.
    pub open spec fn rank(self) -> nat {
        match self {
            Message::View(_) => 0,
            Message::RefreshFailed(_) => 0,
            Message::Quit => 0,
            Message::RefreshFetched(_) => 2,
            _ => 1,
        }
    }

    /// Whether the message writes to the cache.
    pub fn writes_to_store(&self) -> (r: bool)
        ensures
            r == self.writes_store(),
    {
        match self {
            Message::RefreshFetched(_) => true,
            Message::ActiveProject(_) => true,
            _ => false,
        }
    }

    /// Only these messages write to the cache.
    pub open spec fn writes_store(self) -> bool {
        match self {
            Message::RefreshFetched(_) => true,
            Message::ActiveProject(_) => true,
            _ => false,
        }
    }
}

/// The error banner after a failed refresh.
pub open spec fn refresh_error_text(reason: Seq<char>) -> Seq<char> {
    "API error: "@ + reason
}

/// The update engine: applies one message to the model and returns the
/// message that follows from it, if any. The caller feeds that back until
/// none is left.
pub fn update(model: &mut Model, msg: Message) -> (r: Result<Option<Message>, StoreError>)
    requires
        old(model).wf(),
    ensures
        final(model).wf(),
        !msg.writes_store() ==> final(model).store == old(model).store,
        match r {
            Ok(Some(next)) => next.rank() < msg.rank(),
            _ => true,
        },
        match msg {
            Message::View(v) => {
                &&& r == Ok::<Option<Message>, StoreError>(None)
                &&& *final(model) == (Model { active_view: v, ..*old(model) })
            },
            Message::Home => {
                &&& r == Ok::<Option<Message>, StoreError>(Some(Message::View(ActiveView::Home)))
                &&& *final(model) == (Model { active_error_msg: None, ..*old(model) })
            },
            Message::DetailMonth => {
                &&& old(model).month_selected(old(model).selected as int, *final(model), unit_of(r))
                &&& r is Ok ==> r == Ok::<Option<Message>, StoreError>(
                    Some(Message::View(ActiveView::Month)),
                )
            },
            Message::RefreshStarted => {
                &&& r == Ok::<Option<Message>, StoreError>(Some(Message::View(ActiveView::Loading)))
                &&& *final(model) == (Model {
                    refreshing: true,
                    refresh_requested: old(model).refresh_requested || !old(model).refreshing,
                    ..*old(model)
                })
            },
            Message::RefreshProgressing(m) => {
                &&& r == Ok::<Option<Message>, StoreError>(Some(Message::View(ActiveView::Loading)))
                &&& *final(model) == (Model { update_month: m, ..*old(model) })
            },
            Message::RefreshFetched(items) => {
                &&& *final(model) == (Model {
                    refreshing: false,
                    store: final(model).store,
                    ..*old(model)
                })
                &&& final(model).store@.active == old(model).store@.active
                &&& match import_error(items@) {
                    None => r == Ok::<Option<Message>, StoreError>(Some(Message::RefreshCompleted))
                        && final(model).store@.entries == upsert_all(
                        Seq::<EntryView>::empty(),
                        timet_views(items@),
                    ),
                    Some(e) => final(model).store@ == old(model).store@ && match r {
                        Ok(Some(next)) => next.is_failure_with(e.text()),
                        _ => false,
                    },
                }
            },
            Message::RefreshCompleted => {
                &&& r == Ok::<Option<Message>, StoreError>(Some(Message::View(ActiveView::Home)))
                &&& *final(model) == (Model { overview: final(model).overview, ..*old(model) })
                &&& is_yearly_overview(
                    final(model).overview@,
                    final(model).store@,
                    final(model).active_year as int,
                )
            },
            Message::RefreshFailed(t) => {
                &&& r == Ok::<Option<Message>, StoreError>(None)
                &&& *final(model) == (Model {
                    refreshing: false,
                    active_error_msg: final(model).active_error_msg,
                    ..*old(model)
                })
                &&& match final(model).active_error_msg {
                    Some(b) => b@ == refresh_error_text(t@),
                    None => false,
                }
            },
            Message::Hours(m) => {
                &&& r == Ok::<Option<Message>, StoreError>(Some(Message::View(ActiveView::Hours)))
                &&& *final(model) == (Model {
                    register_model: final(model).register_model,
                    ..*old(model)
                })
                &&& m == ProjectMessage::Return ==> final(model).register_model == old(
                    model).register_model
                &&& m == ProjectMessage::Open ==> {
                    &&& final(model).register_model.projects@.len()
                        == old(model).store.projects_spec().len()
                    &&& forall|i: int|
                        0 <= i < final(model).register_model.projects@.len()
                            ==> (#[trigger] final(model).register_model.projects@[i])@ == old(
                            model).store.projects_spec()[i]
                    &&& final(model).register_model.selected == if old(
                        model).register_model.selected < final(
                        model).register_model.projects@.len() {
                        old(model).register_model.selected
                    } else {
                        0
                    }
                }
            },
            Message::AddHours(m) => {
                &&& *final(model) == (Model {
                    add_hours_model: final(model).add_hours_model,
                    ..*old(model)
                })
                &&& final(model).add_hours_model.pending == old(model).add_hours_model.pending
                &&& match m {
                    HoursMessage::Open(p) => {
                        &&& r == Ok::<Option<Message>, StoreError>(
                            Some(Message::View(ActiveView::LogHours)),
                        )
                        &&& final(model).add_hours_model.project@ == p@
                        &&& final(model).add_hours_model.input@.len() == 0
                        &&& final(model).add_hours_model.character_index == 0
                        &&& final(model).add_hours_model.error_message
                            == old(model).add_hours_model.error_message
                    },
                    HoursMessage::ValidationError(e) => {
                        &&& r == Ok::<Option<Message>, StoreError>(None)
                        &&& final(model).add_hours_model.error_message == Some(e)
                        &&& final(model).add_hours_model.project@ == old(
                            model).add_hours_model.project@
                        &&& final(model).add_hours_model.input@ == old(model).add_hours_model.input@
                        &&& final(model).add_hours_model.character_index == old(
                            model).add_hours_model.character_index
                    },
                    HoursMessage::Return => {
                        &&& r == Ok::<Option<Message>, StoreError>(None)
                        &&& final(model).add_hours_model == old(model).add_hours_model
                    },
                }
            },
            Message::Quit => {
                &&& r == Ok::<Option<Message>, StoreError>(None)
                &&& *final(model) == (Model { running_state: RunningState::Done, ..*old(model) })
            },
            Message::ActiveProject(p) => {
                &&& r == Ok::<Option<Message>, StoreError>(Some(Message::View(ActiveView::Home)))
                &&& *final(model) == (Model {
                    store: final(model).store,
                    active_project: p,
                    overview: final(model).overview,
                    ..*old(model)
                })
                &&& final(model).store@.entries == old(model).store@.entries
                &&& final(model).store@.active == match p {
                    Some(q) => Some(q.project_id@),
                    None => None,
                }
                &&& is_yearly_overview(
                    final(model).overview@,
                    final(model).store@,
                    final(model).active_year as int,
                )
            },
        },
{
    match msg {
        Message::View(view) => {
            model.active_view = view;
            Ok(None)
        },
        Message::Home => {
            model.active_error_msg = None;
            Ok(Some(Message::View(ActiveView::Home)))
        },
        Message::DetailMonth => {
            model.set_active_month()?;
            Ok(Some(Message::View(ActiveView::Month)))
        },
        Message::RefreshStarted => {
            model.refresh();
            Ok(Some(Message::View(ActiveView::Loading)))
        },
        Message::RefreshProgressing(month) => {
            model.update_month = month;
            Ok(Some(Message::View(ActiveView::Loading)))
        },
        Message::RefreshFetched(items) => {
            model.refreshing = false;
            match model.store.replace_all(items) {
                Ok(()) => Ok(Some(Message::RefreshCompleted)),
                Err(e) => Ok(Some(Message::RefreshFailed(e.message()))),
            }
        },
        Message::RefreshCompleted => {
            model.overview = model.store.get_yearly_overview(model.active_year);
            Ok(Some(Message::View(ActiveView::Home)))
        },
        Message::RefreshFailed(reason) => {
            model.refreshing = false;
            let mut banner = "API error: ".to_owned();
            push_text(&mut banner, reason.as_str());
            model.active_error_msg = Some(banner);
            Ok(None)
        },
        Message::Hours(m) => Ok(project::update(&mut model.register_model, &model.store, m)),
        Message::AddHours(m) => Ok(hours::update(&mut model.add_hours_model, m)),
        Message::Quit => {
            model.running_state = RunningState::Done;
            Ok(None)
        },
        Message::ActiveProject(project) => {
            match &project {
                Some(p) => model.store.insert_active_project(p.project_id.as_str()),
                None => model.store.delete_active_project(),
            }
            model.active_project = project;
            model.overview = model.store.get_yearly_overview(model.active_year);
            Ok(Some(Message::View(ActiveView::Home)))
        },
    }
}

/// Rank of a pending message; none pending ranks lowest.
pub open spec fn chain_rank(m: Option<Message>) -> nat {
    match m {
        Some(msg) => msg.rank() + 1,
        None => 0,
    }
}

/// Feeds a message, and every message that follows from it, to the update
/// engine until none is left; this always ends. A cache error ends the chain
/// and is shown in the banner. Returns whether a message that writes the
/// cache was applied; where none was, the cache is as it was.
pub fn settle(model: &mut Model, first: Option<Message>) -> (wrote: bool)
    requires
        old(model).wf(),
    ensures
        final(model).wf(),
        !wrote ==> final(model).store == old(model).store,
{
    let mut wrote = false;
    let mut current = first;
    loop
        invariant
            model.wf(),
            !wrote ==> model.store == old(model).store,
        decreases chain_rank(current),
    {
        let msg = match current {
            Some(m) => m,
            None => return wrote,
        };
        if msg.writes_to_store() {
            wrote = true;
        }
        current = match update(model, msg) {
            Ok(next) => next,
            Err(e) => {
                model.active_error_msg = Some(e.message());
                None
            },
        };
    }
}

} // verus!
