use vstd::prelude::*;
use vstd::string::StringExecFns;
use crate::clock::now_secs;
use crate::text::{string_pop, string_push, trim_str, trimmed};
use crate::timer::{SubTimer, SubTimerModel, Timer, TimerModel};

verus! {

// ---------------------------------------------------------------------------
// Front-end state
// ---------------------------------------------------------------------------

/// What the keys currently do.
#[derive(Clone, Copy, PartialEq, Eq, Structural, Debug)]
pub enum Mode {
    Normal,
    Insert,
    /// Part way through the delete sequence, counting the `d` presses so far.
    DeletePending(u8),
    ConfirmDelete,
}

/// Which list is shown: the top-level timers, or the sub-timers of the
/// timer at the given index.
#[derive(Clone, Copy, PartialEq, Eq, Structural, Debug)]
pub enum Level {
    Top,
    Children(usize),
}

/// A key press, as the front end reads it.
#[derive(Clone, Copy, PartialEq, Eq, Structural, Debug)]
pub enum Key {
    Char(char),
    Esc,
    Enter,
    Left,
    Right,
    Up,
    Down,
    Backspace,
    Other,
}

/// What the front end is to do after a key press: leave the loop, and
/// whether the timers are to be written out.
#[derive(Clone, Copy, PartialEq, Eq, Structural, Debug)]
pub struct Outcome {
    pub quit: bool,
    pub save: bool,
}

pub open spec fn keep_going() -> Outcome {
    Outcome { quit: false, save: false }
}

pub open spec fn stop() -> Outcome {
    Outcome { quit: true, save: false }
}

/// Which list is shown, with the parent as a mathematical index.
pub enum LevelModel {
    Top,
    Children(nat),
}

pub open spec fn level_of(level: Level) -> LevelModel {
    match level {
        Level::Top => LevelModel::Top,
        Level::Children(pi) => LevelModel::Children(pi as nat),
    }
}

/// A selection as a mathematical index.
pub open spec fn index_of(sel: Option<usize>) -> Option<nat> {
    match sel {
        Some(i) => Some(i as nat),
        None => None,
    }
}

/// A selection that is empty or points into a list of `len` items.
pub open spec fn selection_valid(sel: Option<nat>, len: nat) -> bool {
    sel matches Some(i) ==> i < len
}

/// The selection after the next-key in a non-empty list of `len` items:
/// one further down, wrapping to the top; the top when nothing was selected.
pub open spec fn next_index(sel: Option<nat>, len: nat) -> nat {
    match sel {
        Some(i) => (i + 1) % len,
        None => 0,
    }
}

/// The selection after the previous-key in a non-empty list of `len`
/// items: one further up, wrapping to the bottom; the top when nothing was
/// selected.
pub open spec fn prev_index(sel: Option<nat>, len: nat) -> nat {
    match sel {
        Some(i) => if i == 0 { (len - 1) as nat } else { (i - 1) as nat },
        None => 0,
    }
}

/// The selection after removing the selected item `i` from a list that
/// then holds `len` items: the same position, or the last item, or nothing.
pub open spec fn after_removal(i: nat, len: nat) -> Option<nat> {
    if len == 0 {
        None
    } else if i < len {
        Some(i)
    } else {
        Some((len - 1) as nat)
    }
}

/// A new, stopped top-level timer.
pub open spec fn fresh_timer(name: Seq<char>) -> TimerModel {
    TimerModel { name, total_seconds: 0, running_since: None, children: Seq::empty() }
}

/// A new, stopped sub-timer.
pub open spec fn fresh_sub_timer(name: Seq<char>) -> SubTimerModel {
    SubTimerModel { name, total_seconds: 0, running_since: None }
}

/// The whole front-end state: the timers, the selection in each list, the
/// mode, the list shown and the text typed so far.
pub struct AppModel {
    pub timers: Seq<TimerModel>,
    pub top_selected: Option<nat>,
    pub child_selected: Option<nat>,
    pub mode: Mode,
    pub level: LevelModel,
    pub input: Seq<char>,
}

impl AppModel {
    /// The state right after loading: top level, normal mode, nothing typed,
    /// the first timer selected if there is one.
    pub open spec fn loaded(timers: Seq<TimerModel>) -> AppModel {
        AppModel {
            timers,
            top_selected: if timers.len() > 0 { Some(0) } else { None },
            child_selected: None,
            mode: Mode::Normal,
            level: LevelModel::Top,
            input: Seq::empty(),
        }
    }

    /// The parent shown in the children list exists.
    pub open spec fn has_parent(self, pi: nat) -> bool {
        pi < self.timers.len()
    }

    /// The number of items in the list shown.
    pub open spec fn list_len(self) -> nat {
        match self.level {
            LevelModel::Top => self.timers.len(),
            LevelModel::Children(pi) => if self.has_parent(pi) {
                self.timers[pi as int].children.len()
            } else {
                0
            },
        }
    }

    /// The selection in the list shown.
    pub open spec fn selected(self) -> Option<nat> {
        match self.level {
            LevelModel::Top => self.top_selected,
            LevelModel::Children(_) => self.child_selected,
        }
    }

    /// The state with the selection in the list shown replaced.
    pub open spec fn with_selected(self, sel: Option<nat>) -> AppModel {
        match self.level {
            LevelModel::Top => AppModel { top_selected: sel, ..self },
            LevelModel::Children(_) => AppModel { child_selected: sel, ..self },
        }
    }

    /// The selection can move down without its index overflowing.
    pub open spec fn next_ok(self) -> bool {
        self.list_len() > 0 ==> self.selected() != Some(usize::MAX as nat)
    }

    /// Moving the selection down; an empty list stays as it is.
    pub open spec fn next(self) -> AppModel {
        if self.list_len() == 0 {
            self
        } else {
            self.with_selected(Some(next_index(self.selected(), self.list_len())))
        }
    }

    /// Moving the selection up; an empty list stays as it is.
    pub open spec fn prev(self) -> AppModel {
        if self.list_len() == 0 {
            self
        } else {
            self.with_selected(Some(prev_index(self.selected(), self.list_len())))
        }
    }

    /// Opening the children of the selected timer; elsewhere nothing changes.
    pub open spec fn entered(self) -> AppModel {
        match self.level {
            LevelModel::Top => match self.top_selected {
                Some(i) => if i < self.timers.len() {
                    AppModel {
                        level: LevelModel::Children(i),
                        child_selected: if self.timers[i as int].children.len() > 0 {
                            Some(0)
                        } else {
                            None
                        },
                        ..self
                    }
                } else {
                    self
                },
                None => self,
            },
            LevelModel::Children(_) => self,
        }
    }

    /// Back to the top-level list, in normal mode.
    pub open spec fn exited(self) -> AppModel {
        AppModel { level: LevelModel::Top, mode: Mode::Normal, ..self }
    }

    /// The selected item of the list shown exists, so Enter toggles it and
    /// the delete sequence removes it.
    pub open spec fn has_target(self) -> bool {
        match self.level {
            LevelModel::Top => self.top_selected matches Some(i) && i < self.timers.len(),
            LevelModel::Children(pi) => self.has_parent(pi) && (self.child_selected matches Some(ci)
                && ci < self.timers[pi as int].children.len()),
        }
    }

    /// Toggling the selected item at `now` banks a run that fits in a `u64`.
    pub open spec fn toggle_fits_at(self, now: u64) -> bool {
        self.has_target() ==> match self.level {
            LevelModel::Top => self.timers[self.top_selected->0 as int].own_fits_at(now),
            LevelModel::Children(pi) => self.timers[pi as int].children[self.child_selected->0 as int].fits_at(now),
        }
    }

    /// Starting or stopping the selected item at `now`; with no selected
    /// item nothing changes.
    pub open spec fn toggled_at(self, now: u64) -> AppModel {
        if !self.has_target() {
            self
        } else {
            match self.level {
                LevelModel::Top => {
                    let i = self.top_selected->0 as int;
                    AppModel { timers: self.timers.update(i, self.timers[i].toggled_own_at(now)), ..self }
                },
                LevelModel::Children(pi) => {
                    let t = self.timers[pi as int];
                    let ci = self.child_selected->0 as int;
                    let t2 = TimerModel { children: t.children.update(ci, t.children[ci].toggled_at(now)), ..t };
                    AppModel { timers: self.timers.update(pi as int, t2), ..self }
                },
            }
        }
    }

    /// Toggling by a clock that reads `now`: a run that would bank past
    /// `u64::MAX` leaves the state as it was.
    pub open spec fn toggled_by_clock(self, now: u64) -> AppModel {
        if self.toggle_fits_at(now) { self.toggled_at(now) } else { self }
    }

    /// Adding an item named `name` with its surrounding white space removed:
    /// a timer at the top level, a sub-timer in a children list; the new
    /// item becomes the selection. A name of white space alone adds nothing.
    pub open spec fn added(self, name: Seq<char>) -> AppModel {
        let n = trimmed(name);
        if n.len() == 0 {
            self
        } else {
            match self.level {
                LevelModel::Top => AppModel {
                    timers: self.timers.push(fresh_timer(n)),
                    top_selected: Some(self.timers.len()),
                    ..self
                },
                LevelModel::Children(pi) => if self.has_parent(pi) {
                    let t = self.timers[pi as int];
                    AppModel {
                        timers: self.timers.update(pi as int, TimerModel { children: t.children.push(fresh_sub_timer(n)), ..t }),
                        child_selected: Some(t.children.len()),
                        ..self
                    }
                } else {
                    self
                },
            }
        }
    }

    /// Removing the selected item of the list shown; the selection stays at
    /// the same position, or moves to the new last item, or empties.
    pub open spec fn deleted(self) -> AppModel {
        if !self.has_target() {
            self
        } else {
            match self.level {
                LevelModel::Top => {
                    let i = self.top_selected->0;
                    let rest = self.timers.remove(i as int);
                    AppModel { timers: rest, top_selected: after_removal(i, rest.len()), ..self }
                },
                LevelModel::Children(pi) => {
                    let t = self.timers[pi as int];
                    let ci = self.child_selected->0;
                    let rest = t.children.remove(ci as int);
                    AppModel {
                        timers: self.timers.update(pi as int, TimerModel { children: rest, ..t }),
                        child_selected: after_removal(ci, rest.len()),
                        ..self
                    }
                },
            }
        }
    }

    /// The name of the selected item, or "this timer" when there is none.
    pub open spec fn selected_name(self) -> Seq<char> {
        if !self.has_target() {
            "this timer"@
        } else {
            match self.level {
                LevelModel::Top => self.timers[self.top_selected->0 as int].name,
                LevelModel::Children(pi) => self.timers[pi as int].children[self.child_selected->0 as int].name,
            }
        }
    }

    /// The name of the timer whose children are shown: "?" when it is gone,
    /// empty at the top level.
    pub open spec fn parent_name(self) -> Seq<char> {
        match self.level {
            LevelModel::Top => ""@,
            LevelModel::Children(pi) => if self.has_parent(pi) { self.timers[pi as int].name } else { "?"@ },
        }
    }

    /// A key in normal mode.
    pub open spec fn step_normal(self, key: Key, now: u64) -> (AppModel, Outcome) {
        match key {
            Key::Char(c) => if c == 'q' {
                (self, stop())
            } else if c == 'i' {
                (AppModel { mode: Mode::Insert, input: Seq::empty(), ..self }, keep_going())
            } else if c == 'l' {
                (self.entered(), keep_going())
            } else if c == 'h' {
                (if self.level is Children { self.exited() } else { self }, keep_going())
            } else if c == 'j' {
                (self.next(), keep_going())
            } else if c == 'k' {
                (self.prev(), keep_going())
            } else if c == 'd' {
                (if self.list_len() > 0 { AppModel { mode: Mode::DeletePending(1), ..self } } else { self }, keep_going())
            } else {
                (self, keep_going())
            },
            Key::Esc => if self.level is Children { (self.exited(), keep_going()) } else { (self, stop()) },
            Key::Enter => (self.toggled_at(now), Outcome { quit: false, save: self.has_target() }),
            Key::Right => (self.entered(), keep_going()),
            Key::Left => (if self.level is Children { self.exited() } else { self }, keep_going()),
            Key::Down => (self.next(), keep_going()),
            Key::Up => (self.prev(), keep_going()),
            _ => (self, keep_going()),
        }
    }

    /// A key part way through the delete sequence: `d` counts on, to the
    /// confirmation after the third; any other key cancels.
    pub open spec fn step_delete_pending(self, count: u8, key: Key) -> (AppModel, Outcome) {
        if key == Key::Char('d') {
            let mode = if count >= 2 { Mode::ConfirmDelete } else { Mode::DeletePending((count + 1) as u8) };
            (AppModel { mode, ..self }, keep_going())
        } else {
            (AppModel { mode: Mode::Normal, ..self }, keep_going())
        }
    }

    /// A key at the delete confirmation: `y` or `Y` deletes the selected
    /// item; every key goes back to normal mode.
    pub open spec fn step_confirm(self, key: Key) -> (AppModel, Outcome) {
        if key == Key::Char('y') || key == Key::Char('Y') {
            (AppModel { mode: Mode::Normal, ..self.deleted() }, Outcome { quit: false, save: self.has_target() })
        } else {
            (AppModel { mode: Mode::Normal, ..self }, keep_going())
        }
    }

    /// A key while typing a name: Enter adds the item, Esc drops the text,
    /// Backspace removes the last character, a character is appended.
    pub open spec fn step_insert(self, key: Key) -> (AppModel, Outcome) {
        match key {
            Key::Esc => (AppModel { mode: Mode::Normal, input: Seq::empty(), ..self }, keep_going()),
            Key::Enter => (
                AppModel { mode: Mode::Normal, input: Seq::empty(), ..self.added(self.input) },
                Outcome { quit: false, save: trimmed(self.input).len() > 0 },
            ),
            Key::Backspace => (
                AppModel { input: if self.input.len() > 0 { self.input.drop_last() } else { self.input }, ..self },
                keep_going(),
            ),
            Key::Char(c) => (AppModel { input: self.input.push(c), ..self }, keep_going()),
            _ => (self, keep_going()),
        }
    }

    /// The state after a key press at clock reading `now`, and what the
    /// front end is to do.
    pub open spec fn step(self, key: Key, now: u64) -> (AppModel, Outcome) {
        match self.mode {
            Mode::Normal => self.step_normal(key, now),
            Mode::DeletePending(count) => self.step_delete_pending(count, key),
            Mode::ConfirmDelete => self.step_confirm(key),
            Mode::Insert => self.step_insert(key),
        }
    }

    /// The key press can be handled at `now` without an index or a clock
    /// reading overflowing.
    pub open spec fn step_ok(self, key: Key, now: u64) -> bool {
        self.mode == Mode::Normal ==> {
            &&& (key == Key::Enter ==> self.toggle_fits_at(now))
            &&& (key == Key::Down || key == Key::Char('j') ==> self.next_ok())
        }
    }

    /// The help line at the bottom of the screen for the mode and the list
    /// shown.
    pub open spec fn status_text(self) -> Seq<char> {
        match self.mode {
            Mode::Normal => match self.level {
                LevelModel::Top => " NORMAL  [i] new  [Enter] start/stop  [l/\u{2192}] open children  [j/k \u{2191}\u{2193}] navigate  [ddd] delete  [q] quit"@,
                LevelModel::Children(_) => " CHILDREN  [i] new sub-timer  [Enter] start/stop  [h/\u{2190}/Esc] back  [j/k \u{2191}\u{2193}] navigate  [ddd] delete"@,
            },
            Mode::Insert => " INSERT  type a name  [Enter] confirm  [Esc] cancel"@,
            Mode::DeletePending(_) => " DELETE  keep pressing d (3\u{d7} total)  any other key cancels"@,
            Mode::ConfirmDelete => " CONFIRM DELETE  [y] delete  [any other key] cancel"@,
        }
    }

    /// The well-formed states: every selection points into its list, the
    /// children list shown belongs to an existing timer, and the delete
    /// sequence has counted one or two presses.
    pub open spec fn wf(self) -> bool {
        &&& selection_valid(self.top_selected, self.timers.len())
        &&& match self.level {
            LevelModel::Top => true,
            LevelModel::Children(pi) => self.has_parent(pi) && selection_valid(
                self.child_selected,
                self.timers[pi as int].children.len(),
            ),
        }
        &&& match self.mode {
            Mode::DeletePending(n) => 1 <= n <= 2,
            _ => true,
        }
    }
}

/// The timers and the front-end state around them.
pub struct App {
    pub timers: Vec<Timer>,
    pub top_selected: Option<usize>,
    pub child_selected: Option<usize>,
    pub mode: Mode,
    pub level: Level,
    pub input: String,
}

impl View for App {
    type V = AppModel;

    open spec fn view(&self) -> AppModel {
        AppModel {
            timers: self.timers@.map_values(|t: Timer| t@),
            top_selected: index_of(self.top_selected),
            child_selected: index_of(self.child_selected),
            mode: self.mode,
            level: level_of(self.level),
            input: self.input@,
        }
    }
}

impl App {
    /// The state right after loading `timers`.
    pub fn new(timers: Vec<Timer>) -> (a: App)
        ensures
            a@ == AppModel::loaded(timers@.map_values(|t: Timer| t@)),
    {
        let top_selected = if timers.len() > 0 { Some(0) } else { None };
        let a = App {
            timers,
            top_selected,
            child_selected: None,
            mode: Mode::Normal,
            level: Level::Top,
            input: String::new(),
        };
        assert(a@.input =~= Seq::<char>::empty());
        a
    }

    /// The number of items in the list shown.
    pub fn list_len(&self) -> (r: usize)
        ensures
            r == self@.list_len(),
    {
        match self.level {
            Level::Top => self.timers.len(),
            Level::Children(pi) => {
                if pi < self.timers.len() {
                    assert(self.timers[pi as int]@ == self@.timers[pi as int]);
                    self.timers[pi].children.len()
                } else {
                    0
                }
            },
        }
    }

    fn selected(&self) -> (r: Option<usize>)
        ensures
            index_of(r) == self@.selected(),
    {
        match self.level {
            Level::Top => self.top_selected,
            Level::Children(_) => self.child_selected,
        }
    }

    fn set_selected(&mut self, sel: Option<usize>)
        ensures
            final(self)@ == old(self)@.with_selected(index_of(sel)),
    {
        match self.level {
            Level::Top => { self.top_selected = sel; },
            Level::Children(_) => { self.child_selected = sel; },
        }
    }

    /// Moves the selection down, wrapping to the top.
    pub fn next(&mut self)
        requires
            old(self)@.next_ok(),
        ensures
            final(self)@ == old(self)@.next(),
    {
        let len = self.list_len();
        if len == 0 {
            return;
        }
        let i = match self.selected() {
            Some(i) => (i + 1) % len,
            None => 0,
        };
        self.set_selected(Some(i));
    }

    /// Moves the selection up, wrapping to the bottom.
    pub fn prev(&mut self)
        ensures
            final(self)@ == old(self)@.prev(),
    {
        let len = self.list_len();
        if len == 0 {
            return;
        }
        let i = match self.selected() {
            Some(i) => if i == 0 { len - 1 } else { i - 1 },
            None => 0,
        };
        self.set_selected(Some(i));
    }

    /// Opens the children list of the selected top-level timer.
    pub fn enter_children(&mut self)
        ensures
            final(self)@ == old(self)@.entered(),
    {
        if let Level::Top = self.level {
            if let Some(i) = self.top_selected {
                if i < self.timers.len() {
                    assert(self.timers[i as int]@ == self@.timers[i as int]);
                    self.level = Level::Children(i);
                    self.child_selected = if self.timers[i].children.len() > 0 {
                        Some(0)
                    } else {
                        None
                    };
                }
            }
        }
    }

    /// Whether toggling the selected item at `now` banks a run that fits in
    /// a `u64`.
    pub fn toggle_fits_at(&self, now: u64) -> (r: bool)
        ensures
            r == self@.toggle_fits_at(now),
    {
        match self.level {
            Level::Top => {
                if let Some(i) = self.top_selected {
                    if i < self.timers.len() {
                        assert(self.timers[i as int]@ == self@.timers[i as int]);
                        return self.timers[i].own_fits_at(now);
                    }
                }
                true
            },
            Level::Children(pi) => {
                if let Some(ci) = self.child_selected {
                    if pi < self.timers.len() {
                        assert(self.timers[pi as int]@ == self@.timers[pi as int]);
                        if ci < self.timers[pi].children.len() {
                            assert(self.timers[pi as int].children[ci as int]@
                                == self@.timers[pi as int].children[ci as int]);
                            return self.timers[pi].children[ci].fits_at(now);
                        }
                    }
                }
                true
            },
        }
    }

    /// Starts or stops the selected item at `now`; returns whether anything
    /// was toggled, and so whether the timers are to be written out.
    pub fn toggle_selected_at(&mut self, now: u64) -> (saved: bool)
        requires
            old(self)@.toggle_fits_at(now),
        ensures
            final(self)@ == old(self)@.toggled_at(now),
            saved == old(self)@.has_target(),
    {
        let ghost old_timers = self@.timers;
        match self.level {
            Level::Top => {
                if let Some(i) = self.top_selected {
                    if i < self.timers.len() {
                        assert(self.timers[i as int]@ == old_timers[i as int]);
                        self.timers[i].toggle_own_at(now);
                        assert(self@.timers =~= old_timers.update(i as int, old_timers[i as int].toggled_own_at(now)));
                        return true;
                    }
                }
                false
            },
            Level::Children(pi) => {
                if let Some(ci) = self.child_selected {
                    if pi < self.timers.len() {
                        assert(self.timers[pi as int]@ == old_timers[pi as int]);
                        if ci < self.timers[pi].children.len() {
                            let ghost t = old_timers[pi as int];
                            assert(self.timers[pi as int].children[ci as int]@ == t.children[ci as int]);
                            self.timers[pi].children[ci].toggle_at(now);
                            assert(self.timers[pi as int]@.children =~= t.children.update(ci as int, t.children[ci as int].toggled_at(now)));
                            assert(self@.timers =~= old_timers.update(pi as int,
                                TimerModel { children: t.children.update(ci as int, t.children[ci as int].toggled_at(now)), ..t }));
                            return true;
                        }
                    }
                }
                false
            },
        }
    }

    /// Starts or stops the selected item by the system clock; a run that
    /// would bank past `u64::MAX` leaves everything as it was. Returns
    /// whether anything was toggled.
    pub fn toggle_selected(&mut self) -> (saved: bool)
        ensures
            exists|now: u64| final(self)@ == #[trigger] old(self)@.toggled_by_clock(now)
                && saved == (old(self)@.has_target() && old(self)@.toggle_fits_at(now)),
    {
        let now = now_secs();
        let saved = if self.toggle_fits_at(now) { self.toggle_selected_at(now) } else { false };
        assert(final(self)@ == old(self)@.toggled_by_clock(now));
        saved
    }

    /// Adds an item named `name` without its surrounding white space, unless
    /// nothing is left of it; returns whether the timers are to be written
    /// out, which they are whenever the name is not blank.
    pub fn add_item(&mut self, name: String) -> (saved: bool)
        ensures
            final(self)@ == old(self)@.added(name@),
            saved == (trimmed(name@).len() > 0),
    {
        let name = String::from_str(trim_str(name.as_str()));
        if name.as_str().is_empty() {
            return false;
        }
        let ghost old_timers = self@.timers;
        match self.level {
            Level::Top => {
                let t = Timer::new(name);
                self.timers.push(t);
                self.top_selected = Some(self.timers.len() - 1);
                assert(self@.timers =~= old_timers.push(t@));
            },
            Level::Children(pi) => {
                if pi < self.timers.len() {
                    let ghost t = old_timers[pi as int];
                    assert(self.timers[pi as int]@ == t);
                    let c = SubTimer::new(name);
                    self.timers[pi].children.push(c);
                    let len = self.timers[pi].children.len();
                    self.child_selected = Some(len - 1);
                    assert(self.timers[pi as int]@.children =~= t.children.push(c@));
                    assert(self@.timers =~= old_timers.update(pi as int,
                        TimerModel { children: t.children.push(c@), ..t }));
                }
            },
        }
        true
    }

    /// Removes the selected item of the list shown; returns whether anything
    /// was removed, and so whether the timers are to be written out.
    pub fn delete_selected(&mut self) -> (saved: bool)
        ensures
            final(self)@ == old(self)@.deleted(),
            saved == old(self)@.has_target(),
    {
        let ghost old_timers = self@.timers;
        match self.level {
            Level::Top => {
                if let Some(i) = self.top_selected {
                    if i < self.timers.len() {
                        self.timers.remove(i);
                        assert(self@.timers =~= old_timers.remove(i as int));
                        let len = self.timers.len();
                        self.top_selected = if len == 0 {
                            None
                        } else if i < len {
                            Some(i)
                        } else {
                            Some(len - 1)
                        };
                        return true;
                    }
                }
                false
            },
            Level::Children(pi) => {
                if let Some(ci) = self.child_selected {
                    if pi < self.timers.len() {
                        let ghost t = old_timers[pi as int];
                        assert(self.timers[pi as int]@ == t);
                        if ci < self.timers[pi].children.len() {
                            self.timers[pi].children.remove(ci);
                            assert(self.timers[pi as int]@.children =~= t.children.remove(ci as int));
                            assert(self@.timers =~= old_timers.update(pi as int,
                                TimerModel { children: t.children.remove(ci as int), ..t }));
                            let len = self.timers[pi].children.len();
                            self.child_selected = if len == 0 {
                                None
                            } else if ci < len {
                                Some(ci)
                            } else {
                                Some(len - 1)
                            };
                            return true;
                        }
                    }
                }
                false
            },
        }
    }

    /// The name of the selected item, or "this timer" when there is none.
    pub fn selected_name(&self) -> (r: String)
        ensures
            r@ == self@.selected_name(),
    {
        match self.level {
            Level::Top => {
                if let Some(i) = self.top_selected {
                    if i < self.timers.len() {
                        assert(self.timers[i as int]@ == self@.timers[i as int]);
                        return self.timers[i].name.clone();
                    }
                }
            },
            Level::Children(pi) => {
                if let Some(ci) = self.child_selected {
                    if pi < self.timers.len() {
                        assert(self.timers[pi as int]@ == self@.timers[pi as int]);
                        if ci < self.timers[pi].children.len() {
                            assert(self.timers[pi as int].children[ci as int]@
                                == self@.timers[pi as int].children[ci as int]);
                            return self.timers[pi].children[ci].name.clone();
                        }
                    }
                }
            },
        }
        String::from_str("this timer")
    }

    /// The name of the timer whose children are shown: "?" when it is gone,
    /// empty at the top level.
    pub fn parent_name(&self) -> (r: &str)
        ensures
            r@ == self@.parent_name(),
    {
        if let Level::Children(pi) = self.level {
            if pi < self.timers.len() {
                assert(self.timers[pi as int]@ == self@.timers[pi as int]);
                self.timers[pi].name.as_str()
            } else {
                "?"
            }
        } else {
            ""
        }
    }

    /// Whether the key press can be handled at `now` without an index or a
    /// clock reading overflowing.
    pub fn step_ok(&self, key: Key, now: u64) -> (r: bool)
        ensures
            r == self@.step_ok(key, now),
    {
        match self.mode {
            Mode::Normal => match key {
                Key::Enter => self.toggle_fits_at(now),
                Key::Down => self.next_ok(),
                Key::Char(c) => if c == 'j' { self.next_ok() } else { true },
                _ => true,
            },
            _ => true,
        }
    }

    fn next_ok(&self) -> (r: bool)
        ensures
            r == self@.next_ok(),
    {
        self.list_len() == 0 || match self.selected() {
            Some(i) => i != usize::MAX,
            None => true,
        }
    }

    fn handle_normal(&mut self, key: Key, now: u64) -> (out: Outcome)
        requires
            old(self).mode == Mode::Normal,
            old(self)@.step_ok(key, now),
        ensures
            (final(self)@, out) == old(self)@.step_normal(key, now),
    {
        let go = Outcome { quit: false, save: false };
        match key {
            Key::Char(c) => {
                if c == 'q' {
                    Outcome { quit: true, save: false }
                } else if c == 'i' {
                    self.mode = Mode::Insert;
                    self.input = String::new();
                    assert(self@.input =~= Seq::<char>::empty());
                    go
                } else if c == 'l' {
                    self.enter_children();
                    go
                } else if c == 'h' {
                    if let Level::Children(_) = self.level {
                        self.exit_children();
                    }
                    go
                } else if c == 'j' {
                    self.next();
                    go
                } else if c == 'k' {
                    self.prev();
                    go
                } else if c == 'd' {
                    if self.list_len() > 0 {
                        self.mode = Mode::DeletePending(1);
                    }
                    go
                } else {
                    go
                }
            },
            Key::Esc => {
                if let Level::Children(_) = self.level {
                    self.exit_children();
                    go
                } else {
                    Outcome { quit: true, save: false }
                }
            },
            Key::Enter => {
                let saved = self.toggle_selected_at(now);
                Outcome { quit: false, save: saved }
            },
            Key::Right => {
                self.enter_children();
                go
            },
            Key::Left => {
                if let Level::Children(_) = self.level {
                    self.exit_children();
                }
                go
            },
            Key::Down => {
                self.next();
                go
            },
            Key::Up => {
                self.prev();
                go
            },
            _ => go,
        }
    }

    fn handle_insert(&mut self, key: Key) -> (out: Outcome)
        requires
            old(self).mode == Mode::Insert,
        ensures
            (final(self)@, out) == old(self)@.step_insert(key),
    {
        let go = Outcome { quit: false, save: false };
        match key {
            Key::Esc => {
                self.mode = Mode::Normal;
                self.input = String::new();
                assert(self@.input =~= Seq::<char>::empty());
                go
            },
            Key::Enter => {
                let name = self.input.clone();
                let saved = self.add_item(name);
                self.input = String::new();
                self.mode = Mode::Normal;
                assert(self@.input =~= Seq::<char>::empty());
                Outcome { quit: false, save: saved }
            },
            Key::Backspace => {
                string_pop(&mut self.input);
                go
            },
            Key::Char(c) => {
                string_push(&mut self.input, c);
                go
            },
            _ => go,
        }
    }

    /// Handles one key press at clock reading `now` (used only when Enter
    /// starts or stops a clock) and says whether to quit and whether to
    /// write the timers out.
    pub fn handle_key(&mut self, key: Key, now: u64) -> (out: Outcome)
        requires
            old(self)@.step_ok(key, now),
        ensures
            (final(self)@, out) == old(self)@.step(key, now),
    {
        let go = Outcome { quit: false, save: false };
        match self.mode {
            Mode::Normal => self.handle_normal(key, now),
            Mode::DeletePending(count) => {
                if key == Key::Char('d') {
                    self.mode = if count >= 2 { Mode::ConfirmDelete } else { Mode::DeletePending(count + 1) };
                } else {
                    self.mode = Mode::Normal;
                }
                go
            },
            Mode::ConfirmDelete => {
                if key == Key::Char('y') || key == Key::Char('Y') {
                    let saved = self.delete_selected();
                    self.mode = Mode::Normal;
                    Outcome { quit: false, save: saved }
                } else {
                    self.mode = Mode::Normal;
                    go
                }
            },
            Mode::Insert => self.handle_insert(key),
        }
    }

    /// The help line at the bottom of the screen.
    pub fn status_line(&self) -> (r: &'static str)
        ensures
            r@ == self@.status_text(),
    {
        match self.mode {
            Mode::Normal => match self.level {
                Level::Top => " NORMAL  [i] new  [Enter] start/stop  [l/\u{2192}] open children  [j/k \u{2191}\u{2193}] navigate  [ddd] delete  [q] quit",
                Level::Children(_) => " CHILDREN  [i] new sub-timer  [Enter] start/stop  [h/\u{2190}/Esc] back  [j/k \u{2191}\u{2193}] navigate  [ddd] delete",
            },
            Mode::Insert => " INSERT  type a name  [Enter] confirm  [Esc] cancel",
            Mode::DeletePending(_) => " DELETE  keep pressing d (3\u{d7} total)  any other key cancels",
            Mode::ConfirmDelete => " CONFIRM DELETE  [y] delete  [any other key] cancel",
        }
    }

    /// Back to the top-level list, in normal mode.
    pub fn exit_children(&mut self)
        ensures
            final(self)@ == old(self)@.exited(),
    {
        self.level = Level::Top;
        self.mode = Mode::Normal;
    }
}

// ---------------------------------------------------------------------------
// Laws of the front end
// ---------------------------------------------------------------------------

/// The state right after loading is well formed.
pub proof fn lemma_loaded_wf(timers: Seq<TimerModel>)
    ensures
        AppModel::loaded(timers).wf(),
{
}

proof fn lemma_next_index_bound(sel: Option<nat>, len: nat)
    requires
        len > 0,
        selection_valid(sel, len),
    ensures
        next_index(sel, len) < len,
        prev_index(sel, len) < len,
{
    if let Some(i) = sel {
        assert((i + 1) % len < len) by (nonlinear_arith)
            requires
                len > 0,
        ;
    }
}

/// Every key press takes a well-formed state to a well-formed state.
pub proof fn lemma_step_preserves_wf(a: AppModel, key: Key, now: u64)
    requires
        a.wf(),
    ensures
        a.step(key, now).0.wf(),
{
    if a.list_len() > 0 {
        lemma_next_index_bound(a.selected(), a.list_len());
    }
    let d = a.deleted();
    if a.has_target() {
        match a.level {
            LevelModel::Top => {},
            LevelModel::Children(pi) => {
                assert(d.timers[pi as int].children =~= a.timers[pi as int].children.remove(
                    a.child_selected->0 as int,
                ));
            },
        }
    }
    let t = a.toggled_at(now);
    if a.has_target() {
        match a.level {
            LevelModel::Top => {},
            LevelModel::Children(pi) => {
                assert(t.timers[pi as int].children.len() == a.timers[pi as int].children.len());
            },
        }
    }
    let ad = a.added(a.input);
    if trimmed(a.input).len() > 0 {
        match a.level {
            LevelModel::Top => {},
            LevelModel::Children(pi) => {
                if a.has_parent(pi) {
                    assert(ad.timers[pi as int].children.len() == a.timers[pi as int].children.len() + 1);
                }
            },
        }
    }
}

/// Moving down and then up, or up and then down, comes back to the same
/// selection.
pub proof fn lemma_prev_undoes_next(a: AppModel)
    requires
        a.wf(),
        a.list_len() > 0,
        a.selected() is Some,
    ensures
        a.next().prev() == a,
        a.prev().next() == a,
{
    let len = a.list_len();
    let i = a.selected()->0;
    assert(i < len);
    if i + 1 < len {
        assert((i + 1) % len == i + 1) by (nonlinear_arith)
            requires
                i + 1 < len,
        ;
    } else {
        assert((i + 1) % len == 0) by (nonlinear_arith)
            requires
                i + 1 == len,
        ;
    }
    if i == 0 {
        assert((((len - 1) as nat) + 1) % len == 0) by (nonlinear_arith)
            requires
                len > 0,
        ;
    } else {
        assert((((i - 1) as nat) + 1) % len == i) by (nonlinear_arith)
            requires
                0 < i < len,
        ;
    }
}

/// Deleting right after adding an item removes that item again: the
/// timers are as they were before.
pub proof fn lemma_delete_after_add(a: AppModel, name: Seq<char>)
    requires
        a.wf(),
        trimmed(name).len() > 0,
    ensures
        a.added(name).deleted().timers == a.timers,
{
    let n = trimmed(name);
    match a.level {
        LevelModel::Top => {
            assert(a.timers.push(fresh_timer(n)).remove(a.timers.len() as int) =~= a.timers);
        },
        LevelModel::Children(pi) => {
            let t = a.timers[pi as int];
            let t2 = TimerModel { children: t.children.push(fresh_sub_timer(n)), ..t };
            assert(t2.children.remove(t.children.len() as int) =~= t.children);
            assert(a.timers.update(pi as int, t2).update(pi as int, t) =~= a.timers);
        },
    }
}

/// Three presses of `d` and then `y` delete the selected item of a
/// non-empty list and return to normal mode; only the last press asks for
/// the timers to be written out.
pub proof fn lemma_delete_sequence(a: AppModel, now: u64)
    requires
        a.mode == Mode::Normal,
        a.list_len() > 0,
    ensures
        ({
            let (s1, o1) = a.step(Key::Char('d'), now);
            let (s2, o2) = s1.step(Key::Char('d'), now);
            let (s3, o3) = s2.step(Key::Char('d'), now);
            let (s4, o4) = s3.step(Key::Char('y'), now);
            &&& o1 == keep_going() && o2 == keep_going() && o3 == keep_going()
            &&& s3.mode == Mode::ConfirmDelete
            &&& s4 == AppModel { mode: Mode::Normal, ..a.deleted() }
            &&& o4 == Outcome { quit: false, save: a.has_target() }
        }),
{
    let s3 = AppModel { mode: Mode::ConfirmDelete, ..a };
    assert(s3.has_target() == a.has_target());
    assert(AppModel { mode: Mode::Normal, ..s3.deleted() } == AppModel { mode: Mode::Normal, ..a.deleted() });
}

/// During the delete sequence any key other than the next expected one
/// cancels it: back to normal mode with nothing else changed.
pub proof fn lemma_delete_cancelled(a: AppModel, key: Key, now: u64)
    requires
        (a.mode is DeletePending && key != Key::Char('d')) || (a.mode == Mode::ConfirmDelete
            && key != Key::Char('y') && key != Key::Char('Y')),
    ensures
        a.step(key, now) == (AppModel { mode: Mode::Normal, ..a }, keep_going()),
{
}

/// While typing a name, Backspace takes back the character just typed.
pub proof fn lemma_backspace_undoes_char(a: AppModel, c: char, now: u64)
    requires
        a.mode == Mode::Insert,
    ensures
        a.step(Key::Char(c), now).0.step(Key::Backspace, now) == (a, keep_going()),
{
    assert(a.input.push(c).drop_last() =~= a.input);
}

/// Opening a timer's children and going back leaves the timers, the
/// top-level selection and the typed text as they were.
pub proof fn lemma_exit_after_enter(a: AppModel)
    requires
        a.level == LevelModel::Top,
    ensures
        a.entered().exited() == (AppModel {
            child_selected: a.entered().child_selected,
            mode: Mode::Normal,
            ..a
        }),
{
}

/// Starting or stopping the selected item changes no timer's displayed
/// total at the instant of the toggle.
pub proof fn lemma_toggle_keeps_totals(a: AppModel, now: u64)
    requires
        a.toggle_fits_at(now),
    ensures
        a.toggled_at(now).timers.len() == a.timers.len(),
        forall|k: int|
            0 <= k < a.timers.len() ==> (#[trigger] a.toggled_at(now).timers[k]).total_elapsed_at(now)
                == a.timers[k].total_elapsed_at(now),
{
    if a.has_target() {
        match a.level {
            LevelModel::Top => {
                crate::timer::lemma_toggle_own_keeps_total(a.timers[a.top_selected->0 as int], now);
            },
            LevelModel::Children(pi) => {
                let t = a.timers[pi as int];
                let ci = a.child_selected->0 as int;
                crate::timer::lemma_toggle_keeps_reading(t.children[ci], now);
                crate::timer::lemma_children_update(t.children, ci, t.children[ci].toggled_at(now), now);
            },
        }
    }
}

/// Every key press that changes the timers asks for them to be written
/// out, so the state file never falls behind a change.
pub proof fn lemma_changes_are_saved(a: AppModel, key: Key, now: u64)
    ensures
        a.step(key, now).0.timers != a.timers ==> a.step(key, now).1.save,
{
}

/// Quitting leaves the state exactly as it was.
pub proof fn lemma_quit_changes_nothing(a: AppModel, key: Key, now: u64)
    ensures
        a.step(key, now).1.quit ==> a.step(key, now).0 == a && !a.step(key, now).1.save,
{
}

/// Stopping the selected top-level timer at `n` banks the `n - s` seconds
/// of its run and touches no other timer; starting it records `n`.
pub proof fn lemma_toggle_selected_banks_run(a: AppModel, n: u64)
    requires
        a.level == LevelModel::Top,
        a.has_target(),
        a.toggle_fits_at(n),
    ensures
        ({
            let i = a.top_selected->0 as int;
            let b = a.toggled_at(n);
            &&& b.timers.len() == a.timers.len()
            &&& forall|k: int| 0 <= k < a.timers.len() && k != i ==> b.timers[k] == a.timers[k]
            &&& b.timers[i].name == a.timers[i].name
            &&& b.timers[i].children == a.timers[i].children
            &&& match a.timers[i].running_since {
                Some(s) => s <= n ==> (b.timers[i].running_since is None
                    && b.timers[i].total_seconds == a.timers[i].total_seconds + (n - s)),
                None => b.timers[i].running_since == Some(n)
                    && b.timers[i].total_seconds == a.timers[i].total_seconds,
            }
            &&& b.top_selected == a.top_selected && b.level == a.level && b.mode == a.mode
        }),
{
}

/// Stopping the selected sub-timer at `n` banks the `n - s` seconds of its
/// run and touches nothing else; starting it records `n`.
pub proof fn lemma_toggle_selected_child_banks_run(a: AppModel, n: u64)
    requires
        a.level is Children,
        a.has_target(),
        a.toggle_fits_at(n),
    ensures
        ({
            let pi = a.level->0 as int;
            let ci = a.child_selected->0 as int;
            let b = a.toggled_at(n);
            let c = a.timers[pi].children[ci];
            let c2 = b.timers[pi].children[ci];
            &&& b.timers.len() == a.timers.len()
            &&& forall|k: int| 0 <= k < a.timers.len() && k != pi ==> b.timers[k] == a.timers[k]
            &&& b.timers[pi].children.len() == a.timers[pi].children.len()
            &&& forall|k: int| 0 <= k < a.timers[pi].children.len() && k != ci
                ==> b.timers[pi].children[k] == a.timers[pi].children[k]
            &&& b.timers[pi].total_seconds == a.timers[pi].total_seconds
            &&& b.timers[pi].running_since == a.timers[pi].running_since
            &&& c2.name == c.name
            &&& match c.running_since {
                Some(s) => s <= n ==> (c2.running_since is None && c2.total_seconds == c.total_seconds + (n - s)),
                None => c2.running_since == Some(n) && c2.total_seconds == c.total_seconds,
            }
        }),
{
}

/// Deleting removes exactly the selected timer, running or not: the timers
/// before it stay in place, the ones after it move up by one.
pub proof fn lemma_delete_removes_selected(a: AppModel)
    requires
        a.level == LevelModel::Top,
        a.has_target(),
    ensures
        ({
            let i = a.top_selected->0 as int;
            let b = a.deleted();
            &&& b.timers.len() + 1 == a.timers.len()
            &&& forall|k: int| 0 <= k < i ==> b.timers[k] == a.timers[k]
            &&& forall|k: int| i <= k < b.timers.len() ==> b.timers[k] == a.timers[k + 1]
            &&& b.level == a.level
            &&& (b.timers.len() > 0 ==> (b.top_selected matches Some(j) && j < b.timers.len()))
        }),
{
}

/// Deleting in a children list removes exactly the selected sub-timer,
/// running or not, and leaves every other timer and sub-timer alone.
pub proof fn lemma_delete_removes_selected_child(a: AppModel)
    requires
        a.level is Children,
        a.has_target(),
    ensures
        ({
            let pi = a.level->0 as int;
            let ci = a.child_selected->0 as int;
            let b = a.deleted();
            let old_c = a.timers[pi].children;
            let new_c = b.timers[pi].children;
            &&& b.timers.len() == a.timers.len()
            &&& forall|k: int| 0 <= k < a.timers.len() && k != pi ==> b.timers[k] == a.timers[k]
            &&& b.timers[pi].name == a.timers[pi].name
            &&& b.timers[pi].total_seconds == a.timers[pi].total_seconds
            &&& b.timers[pi].running_since == a.timers[pi].running_since
            &&& new_c.len() + 1 == old_c.len()
            &&& forall|k: int| 0 <= k < ci ==> new_c[k] == old_c[k]
            &&& forall|k: int| ci <= k < new_c.len() ==> new_c[k] == old_c[k + 1]
        }),
{
}

/// Without a selected item, deleting and toggling change nothing.
pub proof fn lemma_no_target_no_change(a: AppModel, n: u64)
    requires
        !a.has_target(),
    ensures
        a.deleted() == a,
        a.toggled_at(n) == a,
{
}

/// Adding a non-blank name appends one new, stopped, empty item with the
/// trimmed name at the end of the list shown and selects it; everything
/// already there stays as it was. A blank name adds nothing.
pub proof fn lemma_add_appends(a: AppModel, name: Seq<char>)
    ensures
        trimmed(name).len() == 0 ==> a.added(name) == a,
        trimmed(name).len() > 0 && a.level == LevelModel::Top ==> ({
            let b = a.added(name);
            &&& b.timers.len() == a.timers.len() + 1
            &&& forall|k: int| 0 <= k < a.timers.len() ==> b.timers[k] == a.timers[k]
            &&& b.timers[a.timers.len() as int].name == trimmed(name)
            &&& b.timers[a.timers.len() as int].total_seconds == 0
            &&& b.timers[a.timers.len() as int].running_since is None
            &&& b.timers[a.timers.len() as int].children.len() == 0
            &&& b.top_selected == Some(a.timers.len())
        }),
        trimmed(name).len() > 0 && (a.level matches LevelModel::Children(pi) && a.has_parent(pi)) ==> ({
            let pi = a.level->0 as int;
            let b = a.added(name);
            let old_c = a.timers[pi].children;
            let new_c = b.timers[pi].children;
            &&& b.timers.len() == a.timers.len()
            &&& forall|k: int| 0 <= k < a.timers.len() && k != pi ==> b.timers[k] == a.timers[k]
            &&& new_c.len() == old_c.len() + 1
            &&& forall|k: int| 0 <= k < old_c.len() ==> new_c[k] == old_c[k]
            &&& new_c[old_c.len() as int].name == trimmed(name)
            &&& new_c[old_c.len() as int].total_seconds == 0
            &&& new_c[old_c.len() as int].running_since is None
            &&& b.child_selected == Some(old_c.len())
        }),
{
}

/// In normal mode the arrow keys do what their letters do: Left is `h`,
/// Right is `l`, Down is `j`, Up is `k`; in a children list Esc is `h` too.
/// In a children list `h` (and so Left and Esc) goes back to the top-level
/// list and changes nothing else but the mode.
pub proof fn lemma_arrow_keys(a: AppModel, now: u64)
    requires
        a.mode == Mode::Normal,
    ensures
        a.step(Key::Left, now) == a.step(Key::Char('h'), now),
        a.step(Key::Right, now) == a.step(Key::Char('l'), now),
        a.step(Key::Down, now) == a.step(Key::Char('j'), now),
        a.step(Key::Up, now) == a.step(Key::Char('k'), now),
        a.level is Children ==> a.step(Key::Esc, now) == a.step(Key::Char('h'), now),
        a.level is Children ==> ({
            let (b, o) = a.step(Key::Char('h'), now);
            &&& b.level == LevelModel::Top
            &&& b.mode == Mode::Normal
            &&& b.timers == a.timers
            &&& b.top_selected == a.top_selected
            &&& o == keep_going()
        }),
        a.level == LevelModel::Top ==> a.step(Key::Char('h'), now) == (a, keep_going()),
        a.level == LevelModel::Top ==> a.step(Key::Esc, now) == (a, stop()),
{
}

/// In normal mode Enter starts or stops the selected item at the clock
/// reading it is given, and asks to save exactly when there was one.
pub proof fn lemma_enter_toggles(a: AppModel, now: u64)
    requires
        a.mode == Mode::Normal,
    ensures
        a.step(Key::Enter, now).0 == a.toggled_at(now),
        a.step(Key::Enter, now).1 == (Outcome { quit: false, save: a.has_target() }),
{
}

} // verus!
