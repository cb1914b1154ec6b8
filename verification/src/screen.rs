//! The state of the terminal interface and what each key does to it.
//!
//! The interface itself reads keys, draws and touches the journal's files;
//! every decision in between is made here. A key gives the screen its next
//! state and an [`Effect`]: work on the journal that the interface performs
//! before it hands the outcome back through one of the screen's reports.

use crate::date::{next_day, prev_day, Date, Weekday};
use crate::work_day::{offered_days, picker_days};
use crate::model::{bullets_view, Bullet, BulletStatus, BulletView, MigrationTarget};
use crate::tui::{
    FormMode, FormResult, grouped_indices, grouped_positions, picker_after, positions_view, MigratePicker, PickerKey,
};
use vstd::prelude::*;

verus! {

// ---------------------------------------------------------------------------
// Moving the selection

/// The first place from `i` on in `s` that holds `x`, or `s.len()` when
/// none does.
pub open spec fn place_from(s: Seq<int>, x: int, i: int) -> int
    decreases s.len() - i,
{
    if i >= s.len() {
        s.len() as int
    } else if s[i] == x {
        i
    } else {
        place_from(s, x, i + 1)
    }
}

/// The first place in `s` that holds `x`, or `s.len()` when none does.
pub open spec fn place_of(s: Seq<int>, x: int) -> int {
    place_from(s, x, 0)
}

/// Where `j` moves the selection: one bullet down in the order shown, or
/// nowhere at the last one.
pub open spec fn cursor_down(bs: Seq<BulletView>, sel: int, grouped: bool) -> int {
    if bs.len() == 0 {
        sel
    } else if grouped {
        let order = grouped_positions(bs);
        let p = place_of(order, sel);
        if p + 1 < order.len() {
            order[p + 1]
        } else {
            sel
        }
    } else if sel < bs.len() - 1 {
        sel + 1
    } else {
        sel
    }
}

/// Where `k` moves the selection: one bullet up in the order shown, or
/// nowhere at the first one.
pub open spec fn cursor_up(bs: Seq<BulletView>, sel: int, grouped: bool) -> int {
    if grouped {
        let order = grouped_positions(bs);
        let p = place_of(order, sel);
        if 0 < p < order.len() {
            order[p - 1]
        } else {
            sel
        }
    } else if sel > 0 {
        sel - 1
    } else {
        sel
    }
}

proof fn lemma_place_from(s: Seq<int>, x: int, i: int, r: int)
    requires
        0 <= i <= r <= s.len(),
        forall|j: int| i <= j < r ==> s[j] != x,
        r < s.len() ==> s[r] == x,
    ensures
        place_from(s, x, i) == r,
    decreases r - i,
{
    if i < r {
        lemma_place_from(s, x, i + 1, r);
    }
}

fn place_in(order: &Vec<usize>, x: usize) -> (r: usize)
    ensures
        r == place_of(positions_view(order@), x as int),
{
    let ghost s = positions_view(order@);
    let mut k: usize = 0;
    while k < order.len()
        invariant
            k <= order.len(),
            s == positions_view(order@),
            forall|j: int| 0 <= j < k ==> s[j] != x as int,
        decreases order.len() - k,
    {
        if order[k] == x {
            proof {
                lemma_place_from(s, x as int, 0, k as int);
            }
            return k;
        }
        k = k + 1;
    }
    proof {
        lemma_place_from(s, x as int, 0, k as int);
    }
    k
}

/// The selection after `j`.
pub fn move_down(bullets: &Vec<Bullet>, selected: usize, grouped: bool) -> (r: usize)
    ensures
        r == cursor_down(bullets_view(bullets@), selected as int, grouped),
{
    if bullets.len() == 0 {
        return selected;
    }
    if grouped {
        let order = grouped_indices(bullets);
        let p = place_in(&order, selected);
        if p < order.len() && p + 1 < order.len() {
            order[p + 1]
        } else {
            selected
        }
    } else if selected < bullets.len() - 1 {
        selected + 1
    } else {
        selected
    }
}

/// The selection after `k`.
pub fn move_up(bullets: &Vec<Bullet>, selected: usize, grouped: bool) -> (r: usize)
    ensures
        r == cursor_up(bullets_view(bullets@), selected as int, grouped),
{
    if grouped {
        let order = grouped_indices(bullets);
        let p = place_in(&order, selected);
        if 0 < p && p < order.len() {
            order[p - 1]
        } else {
            selected
        }
    } else if selected > 0 {
        selected - 1
    } else {
        selected
    }
}

// ---------------------------------------------------------------------------
// The screen

/// A key as the interface reads it.
#[derive(Debug, Clone, Copy, PartialEq, Eq, Structural)]
pub enum UiKey {
    Char(char),
    Up,
    Down,
    Left,
    Right,
    Home,
    End,
    PageUp,
    PageDown,
    Enter,
    Esc,
    Delete,
    Other,
}

/// One step of a bullet's migration chain: the day, the bullet's ID there,
/// its status and its text.
pub type ChainEntry = (Date, String, BulletStatus, String);

/// Which view is showing.
#[derive(Debug, Clone, PartialEq)]
pub enum Mode {
    /// The daily log, the default view.
    DailyLog,
    /// A bullet held to be moved up and down the log.
    Grab { bullet_id: String, position: usize },
    /// Stepping through the day's open tasks, one at a time.
    Review { task_ids: Vec<String>, current: usize, total: usize },
    /// The open tasks of recent days.
    OpenTasks { tasks: Vec<(Date, Bullet)>, selected: usize },
    /// The migration chain of one bullet.
    MigrationHistory { title: String, chain: Vec<ChainEntry> },
}

/// What the status bar says.
#[derive(Debug, Clone, PartialEq, Eq)]
pub enum Notice {
    /// An operation failed; the text says why.
    Error(String),
    GroupedByStatus,
    FlatView,
    Released,
    IconsEmoji,
    IconsMinimal,
    ReviewCancelled,
    /// A review ended after resolving this many tasks.
    ReviewComplete(usize),
    NoOpenTasksToReview,
    NoOpenTasks,
    NoMigrationHistory,
    NoMigrationHistoryFound,
    MigratedToBacklog,
    NotMigrated,
    NotMigratedFrom,
}

/// How a reviewed task is resolved.
#[derive(Debug, Clone, Copy, PartialEq, Eq, Structural)]
pub enum Resolution {
    Done,
    Cancelled,
    /// Migrated to the next work day.
    Migrate,
}

/// Work on the journal that a key asks of the interface.
#[derive(Debug, Clone, PartialEq)]
pub enum Effect {
    Nothing,
    /// Load the bullets of the day shown and hand them to
    /// [`Screen::loaded`], with `after` as the notice to show then and
    /// `last` telling it to select the last bullet.
    Reload { after: Option<Notice>, last: bool },
    /// Add a bullet to the day shown and report through [`Screen::op_finished`].
    Add { text: String, notes: Vec<String> },
    /// Edit a bullet of the day shown; `notes` of `None` leaves them as they are.
    Update { id: String, text: String, notes: Option<Vec<String>> },
    /// Open the form for a new bullet.
    OpenAddForm,
    /// Open the form on the bullet at `index`.
    OpenEditForm { index: usize },
    Complete { id: String },
    Reopen { id: String },
    Cancel { id: String },
    Delete { id: String },
    /// Migrate to the next work day.
    MigrateNext { id: String },
    /// Offer the upcoming work days through [`Screen::open_picker`].
    OpenPicker { id: String },
    MigrateTo { id: String, date: Date },
    Unmigrate { id: String },
    /// Move the held bullet by `delta`; on success report [`Screen::grab_moved`] with `to`.
    MoveGrabbed { id: String, delta: isize, to: usize },
    /// Find the day's open tasks and hand them to [`Screen::start_review`].
    StartReview,
    /// Resolve a reviewed task and report through [`Screen::resolved`].
    Resolve { id: String, how: Resolution },
    /// Find the open tasks of recent days for [`Screen::show_open_tasks`].
    ShowOpenTasks,
    /// Follow the migration chain of `id` for [`Screen::show_history`].
    ShowHistory { id: String, title: String },
}

/// The state of the interface.
pub struct Screen {
    pub mode: Mode,
    /// The day whose log is showing.
    pub current_date: Date,
    /// The bullets of that day.
    pub bullets: Vec<Bullet>,
    /// The selected bullet's position.
    pub selected: usize,
    /// Whether the log is grouped by status.
    pub grouped: bool,
    pub show_help: bool,
    pub should_quit: bool,
    /// Whether statuses show as emoji rather than minimal icons.
    pub emoji_icons: bool,
    pub status: Option<Notice>,
    /// The migrate picker, while it is open.
    pub picker: Option<MigratePicker>,
}

impl Screen {
    pub open spec fn well_formed(&self) -> bool {
        self.picker matches Some(p) ==> p.well_formed()
    }
}

/// The selected bullet, if the selection is on one.
pub open spec fn selected_bullet(s: Screen) -> Option<Bullet> {
    if s.selected < s.bullets.len() {
        Some(s.bullets@[s.selected as int])
    } else {
        None
    }
}

/// Showing the log of `d` from its first bullet.
pub open spec fn go_to(s: Screen, d: Date) -> (Screen, Effect) {
    (Screen { current_date: d, selected: 0, ..s }, Effect::Reload { after: None, last: false })
}

pub open spec fn noting(s: Screen, n: Notice) -> (Screen, Effect) {
    (Screen { status: Some(n), ..s }, Effect::Nothing)
}

/// An operation on the selected bullet, or nothing when none is selected.
pub open spec fn on_selected(s: Screen, f: spec_fn(String) -> Effect) -> (Screen, Effect) {
    match selected_bullet(s) {
        Some(b) => (s, f(b.id)),
        None => (s, Effect::Nothing),
    }
}

/// A key in the daily log. Any key first clears the status bar.
pub open spec fn daily_step(s0: Screen, key: UiKey) -> (Screen, Effect) {
    let s = Screen { status: None, ..s0 };
    let sel = selected_bullet(s);
    match key {
        UiKey::Char('q') => (Screen { should_quit: true, ..s }, Effect::Nothing),
        UiKey::Char('j') | UiKey::Down => (
            Screen {
                selected: cursor_down(bullets_view(s.bullets@), s.selected as int, s.grouped)
                    as usize,
                ..s
            },
            Effect::Nothing,
        ),
        UiKey::Char('k') | UiKey::Up => (
            Screen {
                selected: cursor_up(bullets_view(s.bullets@), s.selected as int, s.grouped)
                    as usize,
                ..s
            },
            Effect::Nothing,
        ),
        UiKey::Char('h') | UiKey::Left | UiKey::Char('[') => match prev_day(s.current_date) {
            Some(d) if s.current_date.valid() => go_to(s, d),
            _ => (s, Effect::Nothing),
        },
        UiKey::Char('l') | UiKey::Right | UiKey::Char(']') => match next_day(s.current_date) {
            Some(d) if s.current_date.valid() => go_to(s, d),
            _ => (s, Effect::Nothing),
        },
        UiKey::Char('a') => (s, Effect::OpenAddForm),
        UiKey::Char('e') => match sel {
            Some(_) => (s, Effect::OpenEditForm { index: s.selected }),
            None => (s, Effect::Nothing),
        },
        UiKey::Char('d') => on_selected(s, |id: String| Effect::Complete { id }),
        UiKey::Char('o') => on_selected(s, |id: String| Effect::Reopen { id }),
        UiKey::Char('x') => on_selected(s, |id: String| Effect::Cancel { id }),
        UiKey::Char('D') | UiKey::Delete => on_selected(s, |id: String| Effect::Delete { id }),
        UiKey::Char('m') => on_selected(s, |id: String| Effect::MigrateNext { id }),
        UiKey::Char('M') => on_selected(s, |id: String| Effect::OpenPicker { id }),
        UiKey::Char('u') => on_selected(s, |id: String| Effect::Unmigrate { id }),
        UiKey::Char('f') => match sel {
            Some(b) => match b.migrated_to {
                Some(t) => match t.target_date {
                    MigrationTarget::Date(d) => go_to(s, d),
                    MigrationTarget::Backlog => noting(s, Notice::MigratedToBacklog),
                },
                None => noting(s, Notice::NotMigrated),
            },
            None => noting(s, Notice::NotMigrated),
        },
        UiKey::Char('b') => match sel {
            Some(b) => match b.migrated_from {
                Some(f) => go_to(s, f.source_date),
                None => noting(s, Notice::NotMigratedFrom),
            },
            None => noting(s, Notice::NotMigratedFrom),
        },
        UiKey::Char('g') => noting(
            Screen { grouped: !s.grouped, ..s },
            if !s.grouped {
                Notice::GroupedByStatus
            } else {
                Notice::FlatView
            },
        ),
        UiKey::Enter => match sel {
            Some(b) if !s.grouped => (
                Screen { mode: Mode::Grab { bullet_id: b.id, position: s.selected }, ..s },
                Effect::Nothing,
            ),
            _ => (s, Effect::Nothing),
        },
        UiKey::Char('r') => (s, Effect::StartReview),
        UiKey::Char('O') => (s, Effect::ShowOpenTasks),
        UiKey::Char('H') => match sel {
            Some(b) => if b.migrated_to is None && b.migrated_from is None {
                noting(s, Notice::NoMigrationHistory)
            } else {
                (s, Effect::ShowHistory { id: b.id, title: b.text })
            },
            None => (s, Effect::Nothing),
        },
        UiKey::Char('i') => noting(
            Screen { emoji_icons: !s.emoji_icons, ..s },
            if !s.emoji_icons {
                Notice::IconsEmoji
            } else {
                Notice::IconsMinimal
            },
        ),
        _ => (s, Effect::Nothing),
    }
}

/// A key while a bullet is held: `j` and `k` ask to move it, Enter and Esc
/// let it go.
pub open spec fn grab_step(s: Screen, id: String, position: usize, key: UiKey) -> (Screen, Effect) {
    match key {
        UiKey::Char('j') | UiKey::Down => if position + 1 < s.bullets.len() {
            (s, Effect::MoveGrabbed { id, delta: 1isize, to: (position + 1) as usize })
        } else {
            (s, Effect::Nothing)
        },
        UiKey::Char('k') | UiKey::Up => if position > 0 {
            (s, Effect::MoveGrabbed { id, delta: -1isize, to: (position - 1) as usize })
        } else {
            (s, Effect::Nothing)
        },
        UiKey::Enter | UiKey::Esc => noting(Screen { mode: Mode::DailyLog, ..s }, Notice::Released),
        _ => (s, Effect::Nothing),
    }
}

/// A key in review: resolve the current task, or leave.
pub open spec fn review_step(s: Screen, task_ids: Vec<String>, current: usize, key: UiKey) -> (
    Screen,
    Effect,
) {
    let resolve = |how: Resolution|
        if current < task_ids.len() {
            (s, Effect::Resolve { id: task_ids@[current as int], how })
        } else {
            (s, Effect::Nothing)
        };
    match key {
        UiKey::Char('d') => resolve(Resolution::Done),
        UiKey::Char('x') => resolve(Resolution::Cancelled),
        UiKey::Char('m') => resolve(Resolution::Migrate),
        UiKey::Esc => (
            Screen { mode: Mode::DailyLog, ..s },
            Effect::Reload { after: Some(Notice::ReviewCancelled), last: false },
        ),
        _ => (s, Effect::Nothing),
    }
}

/// A key in the open-tasks view: move, jump to a task's day, or leave.
pub open spec fn open_tasks_step(
    s: Screen,
    tasks: Vec<(Date, Bullet)>,
    selected: usize,
    key: UiKey,
) -> (Screen, Effect) {
    match key {
        UiKey::Esc | UiKey::Char('q') => (
            Screen { mode: Mode::DailyLog, ..s },
            Effect::Reload { after: None, last: false },
        ),
        UiKey::Char('j') | UiKey::Down => if selected + 1 < tasks.len() {
            (
                Screen { mode: Mode::OpenTasks { tasks, selected: (selected + 1) as usize }, ..s },
                Effect::Nothing,
            )
        } else {
            (s, Effect::Nothing)
        },
        UiKey::Char('k') | UiKey::Up => if selected > 0 {
            (
                Screen { mode: Mode::OpenTasks { tasks, selected: (selected - 1) as usize }, ..s },
                Effect::Nothing,
            )
        } else {
            (s, Effect::Nothing)
        },
        UiKey::Enter => if selected < tasks.len() {
            go_to(Screen { mode: Mode::DailyLog, ..s }, tasks@[selected as int].0)
        } else {
            (s, Effect::Nothing)
        },
        _ => (s, Effect::Nothing),
    }
}

/// The picker's reading of a key.
pub open spec fn picker_key_of(key: UiKey) -> PickerKey {
    match key {
        UiKey::Esc => PickerKey::Esc,
        UiKey::Enter => PickerKey::Enter,
        UiKey::Up | UiKey::Char('k') => PickerKey::Up,
        UiKey::Down | UiKey::Char('j') => PickerKey::Down,
        UiKey::Home => PickerKey::Home,
        UiKey::End => PickerKey::End,
        UiKey::PageDown => PickerKey::PageDown,
        UiKey::PageUp => PickerKey::PageUp,
        _ => PickerKey::Other,
    }
}

/// A key while the picker is open: it goes to the picker, which on Enter
/// asks to migrate to the highlighted day and on Esc closes.
pub open spec fn picker_step(s: Screen, p: MigratePicker, key: UiKey) -> (Screen, Effect) {
    let q = picker_after(p, picker_key_of(key));
    if q.submitted {
        (
            Screen { picker: None, ..s },
            if q.cursor < q.dates.len() {
                Effect::MigrateTo { id: q.bullet_id, date: q.dates@[q.cursor as int] }
            } else {
                Effect::Nothing
            },
        )
    } else if q.cancelled {
        (Screen { picker: None, ..s }, Effect::Nothing)
    } else {
        (Screen { picker: Some(q), ..s }, Effect::Nothing)
    }
}

/// What a key does: the picker takes it while open, then the help overlay,
/// then the view showing.
pub open spec fn key_step(s: Screen, key: UiKey) -> (Screen, Effect) {
    match s.picker {
        Some(p) => picker_step(s, p, key),
        None => if s.show_help {
            if key == UiKey::Char('?') || key == UiKey::Esc {
                (Screen { show_help: false, ..s }, Effect::Nothing)
            } else {
                (s, Effect::Nothing)
            }
        } else if key == UiKey::Char('?') {
            (Screen { show_help: true, ..s }, Effect::Nothing)
        } else {
            match s.mode {
                Mode::DailyLog => daily_step(s, key),
                Mode::Grab { bullet_id, position } => grab_step(s, bullet_id, position, key),
                Mode::Review { task_ids, current, .. } => review_step(s, task_ids, current, key),
                Mode::OpenTasks { tasks, selected } => open_tasks_step(s, tasks, selected, key),
                Mode::MigrationHistory { .. } => if key == UiKey::Esc || key == UiKey::Char('q') {
                    (Screen { mode: Mode::DailyLog, ..s }, Effect::Reload { after: None, last: false })
                } else {
                    (s, Effect::Nothing)
                },
            }
        },
    }
}

/// The picker's reading of a key.
pub fn picker_key(key: UiKey) -> (r: PickerKey)
    ensures
        r == picker_key_of(key),
{
    match key {
        UiKey::Esc => PickerKey::Esc,
        UiKey::Enter => PickerKey::Enter,
        UiKey::Up | UiKey::Char('k') => PickerKey::Up,
        UiKey::Down | UiKey::Char('j') => PickerKey::Down,
        UiKey::Home => PickerKey::Home,
        UiKey::End => PickerKey::End,
        UiKey::PageDown => PickerKey::PageDown,
        UiKey::PageUp => PickerKey::PageUp,
        _ => PickerKey::Other,
    }
}

impl Screen {
    /// The screen on the daily log of `date`, before its bullets are loaded.
    pub fn new(date: Date) -> (r: Self)
        ensures
            r.well_formed(),
            r.mode is DailyLog,
            r.current_date == date,
            r.bullets@.len() == 0,
            r.selected == 0,
            !r.grouped,
            !r.show_help,
            !r.should_quit,
            !r.emoji_icons,
            r.status is None,
            r.picker is None,
    {
        Screen {
            mode: Mode::DailyLog,
            current_date: date,
            bullets: Vec::new(),
            selected: 0,
            grouped: false,
            show_help: false,
            should_quit: false,
            emoji_icons: false,
            status: None,
            picker: None,
        }
    }

    fn go_to(&mut self, d: Date) -> (e: Effect)
        ensures
            (*final(self), e) == go_to(*old(self), d),
    {
        self.current_date = d;
        self.selected = 0;
        Effect::Reload { after: None, last: false }
    }

    fn note(&mut self, n: Notice) -> (e: Effect)
        ensures
            (*final(self), e) == noting(*old(self), n),
    {
        self.status = Some(n);
        Effect::Nothing
    }

    fn selected_id(&self) -> (r: Option<String>)
        ensures
            r == (match selected_bullet(*self) {
                Some(b) => Some(b.id),
                None => None,
            }),
    {
        if self.selected < self.bullets.len() {
            Some(self.bullets[self.selected].id.clone())
        } else {
            None
        }
    }

    fn daily_key(&mut self, key: UiKey) -> (e: Effect)
        ensures
            (*final(self), e) == daily_step(*old(self), key),
    {
        self.status = None;
        let len = self.bullets.len();
        let has_sel = self.selected < len;
        match key {
            UiKey::Char('q') => {
                self.should_quit = true;
                Effect::Nothing
            },
            UiKey::Char('j') | UiKey::Down => {
                self.selected = move_down(&self.bullets, self.selected, self.grouped);
                Effect::Nothing
            },
            UiKey::Char('k') | UiKey::Up => {
                self.selected = move_up(&self.bullets, self.selected, self.grouped);
                Effect::Nothing
            },
            UiKey::Char('h') | UiKey::Left | UiKey::Char('[') => {
                if self.current_date.is_valid() {
                    match self.current_date.pred_opt() {
                        Some(d) => self.go_to(d),
                        None => Effect::Nothing,
                    }
                } else {
                    Effect::Nothing
                }
            },
            UiKey::Char('l') | UiKey::Right | UiKey::Char(']') => {
                if self.current_date.is_valid() {
                    match self.current_date.succ_opt() {
                        Some(d) => self.go_to(d),
                        None => Effect::Nothing,
                    }
                } else {
                    Effect::Nothing
                }
            },
            UiKey::Char('a') => Effect::OpenAddForm,
            UiKey::Char('e') => if has_sel {
                Effect::OpenEditForm { index: self.selected }
            } else {
                Effect::Nothing
            },
            UiKey::Char('d') => match self.selected_id() {
                Some(id) => Effect::Complete { id },
                None => Effect::Nothing,
            },
            UiKey::Char('o') => match self.selected_id() {
                Some(id) => Effect::Reopen { id },
                None => Effect::Nothing,
            },
            UiKey::Char('x') => match self.selected_id() {
                Some(id) => Effect::Cancel { id },
                None => Effect::Nothing,
            },
            UiKey::Char('D') | UiKey::Delete => match self.selected_id() {
                Some(id) => Effect::Delete { id },
                None => Effect::Nothing,
            },
            UiKey::Char('m') => match self.selected_id() {
                Some(id) => Effect::MigrateNext { id },
                None => Effect::Nothing,
            },
            UiKey::Char('M') => match self.selected_id() {
                Some(id) => Effect::OpenPicker { id },
                None => Effect::Nothing,
            },
            UiKey::Char('u') => match self.selected_id() {
                Some(id) => Effect::Unmigrate { id },
                None => Effect::Nothing,
            },
            UiKey::Char('f') => {
                let target = if has_sel {
                    match &self.bullets[self.selected].migrated_to {
                        Some(t) => Some(t.target_date),
                        None => None,
                    }
                } else {
                    None
                };
                match target {
                    Some(MigrationTarget::Date(d)) => self.go_to(d),
                    Some(MigrationTarget::Backlog) => self.note(Notice::MigratedToBacklog),
                    None => self.note(Notice::NotMigrated),
                }
            },
            UiKey::Char('b') => {
                let source = if has_sel {
                    match &self.bullets[self.selected].migrated_from {
                        Some(f) => Some(f.source_date),
                        None => None,
                    }
                } else {
                    None
                };
                match source {
                    Some(d) => self.go_to(d),
                    None => self.note(Notice::NotMigratedFrom),
                }
            },
            UiKey::Char('g') => {
                self.grouped = !self.grouped;
                if self.grouped {
                    self.note(Notice::GroupedByStatus)
                } else {
                    self.note(Notice::FlatView)
                }
            },
            UiKey::Enter => {
                if has_sel && !self.grouped {
                    let id = self.bullets[self.selected].id.clone();
                    self.mode = Mode::Grab { bullet_id: id, position: self.selected };
                }
                Effect::Nothing
            },
            UiKey::Char('r') => Effect::StartReview,
            UiKey::Char('O') => Effect::ShowOpenTasks,
            UiKey::Char('H') => {
                if has_sel {
                    let b = &self.bullets[self.selected];
                    if b.migrated_to.is_none() && b.migrated_from.is_none() {
                        self.note(Notice::NoMigrationHistory)
                    } else {
                        Effect::ShowHistory { id: b.id.clone(), title: b.text.clone() }
                    }
                } else {
                    Effect::Nothing
                }
            },
            UiKey::Char('i') => {
                self.emoji_icons = !self.emoji_icons;
                if self.emoji_icons {
                    self.note(Notice::IconsEmoji)
                } else {
                    self.note(Notice::IconsMinimal)
                }
            },
            _ => Effect::Nothing,
        }
    }

    fn grab_key(&mut self, key: UiKey) -> (e: Effect)
        requires
            old(self).mode is Grab,
        ensures
            (*final(self), e) == match old(self).mode {
                Mode::Grab { bullet_id, position } => grab_step(
                    *old(self),
                    bullet_id,
                    position,
                    key,
                ),
                _ => (*old(self), Effect::Nothing),
            },
    {
        let (id, position) = match &self.mode {
            Mode::Grab { bullet_id, position } => (bullet_id.clone(), *position),
            _ => {
                return Effect::Nothing;
            },
        };
        match key {
            UiKey::Char('j') | UiKey::Down => {
                if position < self.bullets.len() && position + 1 < self.bullets.len() {
                    Effect::MoveGrabbed { id, delta: 1, to: position + 1 }
                } else {
                    Effect::Nothing
                }
            },
            UiKey::Char('k') | UiKey::Up => {
                if position > 0 {
                    Effect::MoveGrabbed { id, delta: -1, to: position - 1 }
                } else {
                    Effect::Nothing
                }
            },
            UiKey::Enter | UiKey::Esc => {
                self.mode = Mode::DailyLog;
                self.note(Notice::Released)
            },
            _ => Effect::Nothing,
        }
    }

    fn review_key(&mut self, key: UiKey) -> (e: Effect)
        requires
            old(self).mode is Review,
        ensures
            (*final(self), e) == match old(self).mode {
                Mode::Review { task_ids, current, .. } => review_step(
                    *old(self),
                    task_ids,
                    current,
                    key,
                ),
                _ => (*old(self), Effect::Nothing),
            },
    {
        let id = match &self.mode {
            Mode::Review { task_ids, current, .. } => if *current < task_ids.len() {
                Some(task_ids[*current].clone())
            } else {
                None
            },
            _ => {
                return Effect::Nothing;
            },
        };
        let how = match key {
            UiKey::Char('d') => Resolution::Done,
            UiKey::Char('x') => Resolution::Cancelled,
            UiKey::Char('m') => Resolution::Migrate,
            UiKey::Esc => {
                self.mode = Mode::DailyLog;
                return Effect::Reload { after: Some(Notice::ReviewCancelled), last: false };
            },
            _ => {
                return Effect::Nothing;
            },
        };
        match id {
            Some(id) => Effect::Resolve { id, how },
            None => Effect::Nothing,
        }
    }

    fn open_tasks_key(&mut self, key: UiKey) -> (e: Effect)
        requires
            old(self).mode is OpenTasks,
        ensures
            (*final(self), e) == match old(self).mode {
                Mode::OpenTasks { tasks, selected } => open_tasks_step(
                    *old(self),
                    tasks,
                    selected,
                    key,
                ),
                _ => (*old(self), Effect::Nothing),
            },
    {
        let ghost s0 = *self;
        let mut mode = Mode::DailyLog;
        std::mem::swap(&mut mode, &mut self.mode);
        let (tasks, selected) = match mode {
            Mode::OpenTasks { tasks, selected } => (tasks, selected),
            _ => {
                self.mode = mode;
                return Effect::Nothing;
            },
        };
        match key {
            UiKey::Esc | UiKey::Char('q') => Effect::Reload { after: None, last: false },
            UiKey::Char('j') | UiKey::Down => {
                if selected < tasks.len() && selected + 1 < tasks.len() {
                    self.mode = Mode::OpenTasks { tasks, selected: selected + 1 };
                } else {
                    self.mode = Mode::OpenTasks { tasks, selected };
                    assert(*self == s0);
                }
                Effect::Nothing
            },
            UiKey::Char('k') | UiKey::Up => {
                if selected > 0 {
                    self.mode = Mode::OpenTasks { tasks, selected: selected - 1 };
                } else {
                    self.mode = Mode::OpenTasks { tasks, selected };
                    assert(*self == s0);
                }
                Effect::Nothing
            },
            UiKey::Enter => {
                if selected < tasks.len() {
                    let d = tasks[selected].0;
                    self.go_to(d)
                } else {
                    self.mode = Mode::OpenTasks { tasks, selected };
                    assert(*self == s0);
                    Effect::Nothing
                }
            },
            _ => {
                self.mode = Mode::OpenTasks { tasks, selected };
                assert(*self == s0);
                Effect::Nothing
            },
        }
    }

    fn picker_key_step(&mut self, key: UiKey) -> (e: Effect)
        requires
            old(self).well_formed(),
            old(self).picker is Some,
        ensures
            final(self).well_formed(),
            (*final(self), e) == match old(self).picker {
                Some(p) => picker_step(*old(self), p, key),
                None => (*old(self), Effect::Nothing),
            },
    {
        let mut held: Option<MigratePicker> = None;
        std::mem::swap(&mut held, &mut self.picker);
        let mut q = match held {
            Some(p) => p,
            None => {
                return Effect::Nothing;
            },
        };
        q.handle_key(picker_key(key));
        if q.submitted {
            match q.selected_date() {
                Some(date) => Effect::MigrateTo { id: q.bullet_id, date },
                None => Effect::Nothing,
            }
        } else if q.cancelled {
            Effect::Nothing
        } else {
            self.picker = Some(q);
            Effect::Nothing
        }
    }

    /// What a key does to the screen, and the work it asks of the interface.
    pub fn handle_key(&mut self, key: UiKey) -> (e: Effect)
        requires
            old(self).well_formed(),
        ensures
            final(self).well_formed(),
            (*final(self), e) == key_step(*old(self), key),
    {
        if self.picker.is_some() {
            return self.picker_key_step(key);
        }
        if self.show_help {
            if key == UiKey::Char('?') || key == UiKey::Esc {
                self.show_help = false;
            }
            return Effect::Nothing;
        }
        if key == UiKey::Char('?') {
            self.show_help = true;
            return Effect::Nothing;
        }
        match self.mode {
            Mode::DailyLog => self.daily_key(key),
            Mode::Grab { .. } => self.grab_key(key),
            Mode::Review { .. } => self.review_key(key),
            Mode::OpenTasks { .. } => self.open_tasks_key(key),
            Mode::MigrationHistory { .. } => {
                if key == UiKey::Esc || key == UiKey::Char('q') {
                    self.mode = Mode::DailyLog;
                    Effect::Reload { after: None, last: false }
                } else {
                    Effect::Nothing
                }
            },
        }
    }
}

// ---------------------------------------------------------------------------
// What the interface reports back

/// The screen once a review's outcome is known: on failure the error shows;
/// on success the review moves to the next task, or ends after the last one.
pub open spec fn resolved_step(s: Screen, r: Result<(), String>) -> (Screen, Effect) {
    match r {
        Err(e) => noting(s, Notice::Error(e)),
        Ok(_) => match s.mode {
            Mode::Review { task_ids, current, total } => if current + 1 >= total {
                (
                    Screen { mode: Mode::DailyLog, ..s },
                    Effect::Reload { after: Some(Notice::ReviewComplete(total)), last: false },
                )
            } else {
                (
                    Screen {
                        mode: Mode::Review { task_ids, current: (current + 1) as usize, total },
                        ..s
                    },
                    Effect::Nothing,
                )
            },
            _ => (s, Effect::Nothing),
        },
    }
}

/// A review begins on the day's open tasks, if there are any.
pub open spec fn review_started(s: Screen, r: Result<Vec<String>, String>) -> Screen {
    match r {
        Err(e) => Screen { status: Some(Notice::Error(e)), ..s },
        Ok(ids) => if ids.len() == 0 {
            Screen { status: Some(Notice::NoOpenTasksToReview), ..s }
        } else {
            Screen { mode: Mode::Review { task_ids: ids, current: 0, total: ids.len() }, ..s }
        },
    }
}

/// The open-tasks view opens on the tasks found, if there are any.
pub open spec fn open_tasks_shown(s: Screen, r: Result<Vec<(Date, Bullet)>, String>) -> Screen {
    match r {
        Err(e) => Screen { status: Some(Notice::Error(e)), ..s },
        Ok(ts) => if ts.len() == 0 {
            Screen { status: Some(Notice::NoOpenTasks), ..s }
        } else {
            Screen { mode: Mode::OpenTasks { tasks: ts, selected: 0 }, ..s }
        },
    }
}

/// The history view opens on the chain found, if it has any step.
pub open spec fn history_shown(s: Screen, title: String, r: Result<Vec<ChainEntry>, String>) -> Screen {
    match r {
        Err(e) => Screen { status: Some(Notice::Error(e)), ..s },
        Ok(chain) => if chain.len() == 0 {
            Screen { status: Some(Notice::NoMigrationHistoryFound), ..s }
        } else {
            Screen { mode: Mode::MigrationHistory { title, chain }, ..s }
        },
    }
}

/// What a submitted form asks: a new bullet, or the edited text and notes,
/// where an edit that leaves no notes keeps the bullet's notes.
pub open spec fn form_effect_of(mode: FormMode, result: FormResult) -> Effect {
    match mode {
        FormMode::Add => Effect::Add { text: result.text, notes: result.notes },
        FormMode::Edit { bullet_id } => Effect::Update {
            id: bullet_id,
            text: result.text,
            notes: if result.notes.len() == 0 {
                None
            } else {
                Some(result.notes)
            },
        },
    }
}

/// What a submitted form asks of the journal.
pub fn form_effect(mode: FormMode, result: FormResult) -> (e: Effect)
    ensures
        e == form_effect_of(mode, result),
{
    match mode {
        FormMode::Add => Effect::Add { text: result.text, notes: result.notes },
        FormMode::Edit { bullet_id } => {
            let notes = if result.notes.len() == 0 {
                None
            } else {
                Some(result.notes)
            };
            Effect::Update { id: bullet_id, text: result.text, notes }
        },
    }
}

impl Screen {
    /// The day's bullets were loaded, or loading failed with error `r`. The
    /// selection stays on a bullet where it can; `last` moves it to the last
    /// bullet, and `after` is the notice to show then.
    pub fn loaded(&mut self, r: Result<Vec<Bullet>, String>, after: Option<Notice>, last: bool)
        requires
            old(self).well_formed(),
        ensures
            final(self).well_formed(),
            final(self).mode == old(self).mode,
            final(self).current_date == old(self).current_date,
            final(self).grouped == old(self).grouped,
            final(self).show_help == old(self).show_help,
            final(self).should_quit == old(self).should_quit,
            final(self).emoji_icons == old(self).emoji_icons,
            final(self).picker == old(self).picker,
            match r {
                Ok(bs) => final(self).bullets == bs,
                Err(_) => final(self).bullets@.len() == 0,
            },
            final(self).selected == (if last && final(self).bullets.len() > 0 {
                final(self).bullets.len() - 1
            } else {
                match r {
                    Ok(bs) => if old(self).selected >= bs.len() && bs.len() > 0 {
                        bs.len() - 1
                    } else {
                        old(self).selected as int
                    },
                    Err(_) => old(self).selected as int,
                }
            }),
            final(self).status == (match after {
                Some(n) => Some(n),
                None => match r {
                    Ok(_) => None,
                    Err(e) => Some(Notice::Error(e)),
                },
            }),
    {
        match r {
            Ok(bs) => {
                self.bullets = bs;
                self.status = None;
                if self.selected >= self.bullets.len() && self.bullets.len() > 0 {
                    self.selected = self.bullets.len() - 1;
                }
            },
            Err(e) => {
                self.bullets = Vec::new();
                self.status = Some(Notice::Error(e));
            },
        }
        if let Some(n) = after {
            self.status = Some(n);
        }
        if last && self.bullets.len() > 0 {
            self.selected = self.bullets.len() - 1;
        }
    }

    /// An operation on the journal ended: on success the day is loaded
    /// again (selecting its last bullet if `last`), on failure the error shows.
    pub fn op_finished(&mut self, r: Result<(), String>, last: bool) -> (e: Effect)
        ensures
            (*final(self), e) == match r {
                Ok(_) => (*old(self), Effect::Reload { after: None, last }),
                Err(msg) => noting(*old(self), Notice::Error(msg)),
            },
    {
        match r {
            Ok(_) => Effect::Reload { after: None, last },
            Err(msg) => self.note(Notice::Error(msg)),
        }
    }

    /// The held bullet was moved to position `to`.
    pub fn grab_moved(&mut self, to: usize) -> (e: Effect)
        ensures
            (*final(self), e) == match old(self).mode {
                Mode::Grab { bullet_id, .. } => (
                    Screen {
                        mode: Mode::Grab { bullet_id, position: to },
                        selected: to,
                        ..*old(self)
                    },
                    Effect::Reload { after: None, last: false },
                ),
                _ => (*old(self), Effect::Nothing),
            },
    {
        let ghost s0 = *self;
        let mut mode = Mode::DailyLog;
        std::mem::swap(&mut mode, &mut self.mode);
        match mode {
            Mode::Grab { bullet_id, .. } => {
                self.mode = Mode::Grab { bullet_id, position: to };
                self.selected = to;
                Effect::Reload { after: None, last: false }
            },
            other => {
                self.mode = other;
                assert(*self == s0);
                Effect::Nothing
            },
        }
    }

    /// The day's open tasks were found (their IDs), or finding them failed.
    pub fn start_review(&mut self, r: Result<Vec<String>, String>)
        ensures
            *final(self) == review_started(*old(self), r),
    {
        match r {
            Err(e) => {
                self.status = Some(Notice::Error(e));
            },
            Ok(ids) => {
                if ids.len() == 0 {
                    self.status = Some(Notice::NoOpenTasksToReview);
                } else {
                    let total = ids.len();
                    self.mode = Mode::Review { task_ids: ids, current: 0, total };
                }
            },
        }
    }

    /// The current review task was resolved, or resolving it failed.
    pub fn resolved(&mut self, r: Result<(), String>) -> (e: Effect)
        ensures
            (*final(self), e) == resolved_step(*old(self), r),
    {
        if let Err(msg) = r {
            return self.note(Notice::Error(msg));
        }
        let ghost s0 = *self;
        let mut mode = Mode::DailyLog;
        std::mem::swap(&mut mode, &mut self.mode);
        match mode {
            Mode::Review { task_ids, current, total } => {
                if current >= total || total - current <= 1 {
                    Effect::Reload { after: Some(Notice::ReviewComplete(total)), last: false }
                } else {
                    self.mode = Mode::Review { task_ids, current: current + 1, total };
                    Effect::Nothing
                }
            },
            other => {
                self.mode = other;
                assert(*self == s0);
                Effect::Nothing
            },
        }
    }

    /// The open tasks of recent days were found, or finding them failed.
    pub fn show_open_tasks(&mut self, r: Result<Vec<(Date, Bullet)>, String>)
        ensures
            *final(self) == open_tasks_shown(*old(self), r),
    {
        match r {
            Err(e) => {
                self.status = Some(Notice::Error(e));
            },
            Ok(ts) => {
                if ts.len() == 0 {
                    self.status = Some(Notice::NoOpenTasks);
                } else {
                    self.mode = Mode::OpenTasks { tasks: ts, selected: 0 };
                }
            },
        }
    }

    /// The migration chain of the bullet titled `title` was followed, or
    /// following it failed.
    pub fn show_history(&mut self, title: String, r: Result<Vec<ChainEntry>, String>)
        ensures
            *final(self) == history_shown(*old(self), title, r),
    {
        match r {
            Err(e) => {
                self.status = Some(Notice::Error(e));
            },
            Ok(chain) => {
                if chain.len() == 0 {
                    self.status = Some(Notice::NoMigrationHistoryFound);
                } else {
                    self.mode = Mode::MigrationHistory { title, chain };
                }
            },
        }
    }

    /// Open the migrate picker for bullet `id` on the work days that follow
    /// the current date.
    pub fn open_picker(&mut self, id: String, work_days: &[Weekday])
        requires
            old(self).current_date.valid(),
        ensures
            final(self).well_formed(),
            final(self).picker matches Some(p) && p.bullet_id == id && p.cursor == 0
                && !p.submitted && !p.cancelled && offered_days(
                old(self).current_date,
                work_days@,
                p.dates@,
            ),
            *final(self) == (Screen { picker: final(self).picker, ..*old(self) }),
    {
        let dates = picker_days(self.current_date, work_days);
        self.picker = Some(MigratePicker::new(id, dates));
    }
}

} // verus!
