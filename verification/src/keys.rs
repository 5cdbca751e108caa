//! What each key does in each mode of the interface.
use vstd::prelude::*;
use crate::app::{
    moved, refiltered, reloaded, resorted, target_text, with_status, App, AppMode, DirPickFocus,
    Focus, Pending,
};
use crate::cli::ExportFormat;
use crate::notes::{
    ensure_adoc_extension, ensured_adoc, strip_adoc_extension, stripped_adoc, trashed_name,
    trashed_path,
};
use crate::paths::{expand_path, expanded_path, join, join_path};
use crate::templates::filled;
use crate::text::{cat, chars_of, string_of};

verus! {

/// A key, as the interface tells them apart.
#[derive(Clone, Copy, Debug, PartialEq, Eq, Structural)]
pub enum Key {
    Char(char),
    Enter,
    Esc,
    Tab,
    BackTab,
    Backspace,
    Up,
    Down,
    PageUp,
    PageDown,
    Other,
}

/// A key press, with whether Control was held.
#[derive(Clone, Copy, Debug, PartialEq, Eq, Structural)]
pub struct KeyPress {
    pub key: Key,
    pub ctrl: bool,
}

/// What the caller has to do after a key press.
pub enum Effect {
    Nothing,
    /// Leave the interface.
    Quit,
    /// Export the document at `path`; report through `finish_export`.
    Export { path: String, format: ExportFormat },
    /// Move the document at `path` to `trashed`; report through `finish_delete`.
    SoftDelete { path: String, trashed: String, rel: String },
    /// Move `trashed` back to `original`; report through `finish_restore`.
    Restore { trashed: String, original: String, display: String },
    /// Open `path` in the editor; report through `finish_open`.
    OpenEditor { path: String },
    /// Move `from` to `to`; report through `finish_rename`.
    Rename { from: String, to: String, new_rel: String },
    /// Write `contents` to the new file `path` in `dir`; report through
    /// `finish_create`.
    Create { dir: String, path: String, contents: String, open_after: bool },
    /// List the directory again and hand it to `finish_cycle_sort`.
    CycleSort,
    /// List the directory with recursion flipped and hand it to
    /// `finish_toggle_recursive`.
    ToggleRecursive,
    /// List `target` and hand it to `finish_change_dir`.
    ChangeDir { target: String },
    /// Check that `target` is a directory and, if so, list it; report
    /// through `finish_dir_pick`.
    CheckDir { target: String },
}

/// A directory as found on disk: its entries, unsorted, and the heads of
/// their texts by relative path.
pub struct Listing {
    pub notes: Vec<crate::notes::NoteEntry>,
    pub bodies: Vec<(String, String)>,
}

/// `s` with its last character removed, if it has one.
pub open spec fn popped(s: Seq<char>) -> Seq<char> {
    if s.len() > 0 {
        s.drop_last()
    } else {
        s
    }
}

pub open spec fn sat_add(x: u16, k: int) -> u16 {
    if x + k > u16::MAX {
        u16::MAX
    } else {
        (x + k) as u16
    }
}

pub open spec fn sat_sub(x: u16, k: int) -> u16 {
    if x - k < 0 {
        0
    } else {
        (x - k) as u16
    }
}

pub open spec fn flipped_focus(f: Focus) -> Focus {
    match f {
        Focus::List => Focus::Preview,
        Focus::Preview => Focus::List,
    }
}

pub open spec fn target_label_text(target_cwd: bool) -> Seq<char> {
    if target_cwd {
        "CWD"@
    } else {
        "notes dir"@
    }
}

/// The path of the highlighted document, from the listed directory.
pub open spec fn selected_full_path(app: App) -> Option<Seq<char>> {
    match app.selected_path_text() {
        Some(rel) => Some(join_path(app.directory@, rel)),
        None => None,
    }
}

/// `eff` asks to create a document titled `title` in the directory new
/// documents go to, from the chosen template.
pub open spec fn creates(app: App, title: Seq<char>, open_after: bool, eff: Effect) -> bool {
    eff matches Effect::Create { dir, path, contents, open_after: o } && dir@ == target_text(app)
        && path@ == join_path(dir@, ensured_adoc(title)) && o == open_after && exists|date: Seq<char>|
        crate::templates::is_date_text(date) && contents@ == filled(app.chosen_template.text(), stripped_adoc(title), app.author@, date)
}

/// A key of the normal mode, once any pending chord has been dealt with.
pub open spec fn normal_key(old: App, press: KeyPress, new: App, eff: Effect) -> bool {
    let len = old.filtered_indices@.len();
    match press.key {
        Key::Char('q') => new == old && eff is Quit,
        Key::Char('?') => new == (App { mode: AppMode::Help, ..old }) && eff is Nothing,
        Key::Char('i') => new == (App { mode: AppMode::Create, input: new.input, ..old })
            && new.input@.len() == 0 && eff is Nothing,
        Key::Char('I') => new == (App {
            mode: AppMode::Create,
            input: new.input,
            target_cwd: true,
            ..old
        }) && new.input@.len() == 0 && eff is Nothing,
        Key::Char('t') => new == (App {
            mode: AppMode::TemplatePick,
            template_selected: Some(0),
            ..old
        }) && eff is Nothing,
        Key::Char('T') => new == (App {
            mode: AppMode::TemplatePick,
            template_selected: Some(0),
            target_cwd: true,
            ..old
        }) && eff is Nothing,
        Key::Char('r') => eff is Nothing && match old.selected_path_text() {
            Some(rel) => new == (App {
                rename_from: new.rename_from,
                input: new.input,
                mode: AppMode::Rename,
                ..old
            }) && (new.rename_from matches Some(f) && f@ == join_path(old.directory@, rel)
                && new.input@ == rel),
            None => with_status(old, new, "Nothing to rename"@, true),
        },
        Key::Char('/') => eff is Nothing && refiltered(App { mode: AppMode::Search, ..old }, true, new),
        Key::Char('n') => eff is Nothing && if old.search_query@.len() > 0 {
            new == (App { mode: AppMode::Search, ..old })
        } else {
            with_status(old, new, "No previous search"@, false)
        },
        Key::Char('N') => eff is Nothing && if old.search_query@.len() > 0 {
            let filtered = App { status_log: old.status_log, status_message: old.status_message, ..new };
            &&& new.search_query@.len() == 0
            &&& refiltered(App { search_query: new.search_query, ..old }, false, filtered)
            &&& with_status(filtered, new, "Search cleared"@, false)
        } else {
            new == old
        },
        Key::Char('s') => new == old && eff is CycleSort,
        Key::Char('R') => new == old && eff is ToggleRecursive,
        Key::Char('c') => new == (App {
            mode: AppMode::DirPick,
            input: new.input,
            recent_selected: Some(0),
            dir_pick_focus: DirPickFocus::Recents,
            ..old
        }) && new.input@.len() == 0 && eff is Nothing,
        Key::Char('H') => new == old && match old.cwd {
            Some(c) => eff matches Effect::ChangeDir { target } && target@ == c@,
            None => eff is Nothing,
        },
        Key::Tab => eff is Nothing && if old.preview_open {
            new == (App { focus: flipped_focus(old.focus), ..old })
        } else {
            with_status(
                App { target_cwd: !old.target_cwd, ..old },
                new,
                "Target: "@ + target_label_text(!old.target_cwd),
                false,
            )
        },
        Key::BackTab => eff is Nothing && with_status(
            App { target_cwd: !old.target_cwd, ..old },
            new,
            "Target: "@ + target_label_text(!old.target_cwd),
            false,
        ),
        Key::Char('p') => eff is Nothing && new == (App {
            preview_open: !old.preview_open,
            focus: if old.preview_open {
                Focus::List
            } else {
                old.focus
            },
            ..old
        }),
        Key::Char('o') => new == old && match selected_full_path(old) {
            Some(p) => eff matches Effect::OpenEditor { path } && path@ == p,
            None => eff is Nothing,
        },
        Key::Char('e') => new == (App { pending: Pending::Export, ..old }) && eff is Nothing,
        Key::Char('d') => new == (App { pending: Pending::Delete, ..old }) && eff is Nothing,
        Key::Char('u') => match old.last_trash {
            Some(rec) => new == old && (eff matches Effect::Restore { trashed, original, display }
                && trashed@ == rec.trashed_path@ && original@ == rec.original_path@ && display@
                == rec.display_name@),
            None => eff is Nothing && with_status(old, new, "Nothing to undo"@, false),
        },
        Key::Char('j') | Key::Down => eff is Nothing && if old.focus == Focus::Preview {
            new == (App { preview_scroll: sat_add(old.preview_scroll, 1), ..old })
        } else {
            new == moved(old, 1)
        },
        Key::Char('k') | Key::Up => eff is Nothing && if old.focus == Focus::Preview {
            new == (App { preview_scroll: sat_sub(old.preview_scroll, 1), ..old })
        } else {
            new == moved(old, -1)
        },
        Key::Char('g') => eff is Nothing && if old.focus == Focus::Preview {
            new == (App { preview_scroll: 0, ..old })
        } else if len > 0 {
            new == (App { selected: Some(0), preview_cache: None, ..old })
        } else {
            new == old
        },
        Key::Char('G') => eff is Nothing && if old.focus == Focus::Preview {
            new == (App { preview_scroll: 32767, ..old })
        } else if len > 0 {
            new == (App { selected: Some((len - 1) as usize), preview_cache: None, ..old })
        } else {
            new == old
        },
        Key::PageDown => eff is Nothing && if old.focus == Focus::Preview {
            new == (App { preview_scroll: sat_add(old.preview_scroll, 10), ..old })
        } else {
            new == moved(old, 10)
        },
        Key::PageUp => eff is Nothing && if old.focus == Focus::Preview {
            new == (App { preview_scroll: sat_sub(old.preview_scroll, 10), ..old })
        } else {
            new == moved(old, -10)
        },
        Key::Esc => new == (App { status_message: None, ..old }) && eff is Nothing,
        _ => new == old && eff is Nothing,
    }
}

/// A key in normal mode: a pending `e` chord is finished by `h` (HTML) or
/// `p` (PDF), a pending `d` chord by `d`; any other key drops the chord and
/// then acts as usual.
pub open spec fn normal_step(old: App, press: KeyPress, new: App, eff: Effect) -> bool {
    let k = press.key;
    let idle = App { pending: Pending::Idle, ..old };
    if old.pending == Pending::Export {
        if k == Key::Char('h') || k == Key::Char('p') {
            new == idle && match selected_full_path(old) {
                Some(p) => eff matches Effect::Export { path, format } && path@ == p && format == (if k
                    == Key::Char('h') {
                    ExportFormat::Html
                } else {
                    ExportFormat::Pdf
                }),
                None => eff is Nothing,
            }
        } else {
            normal_key(idle, press, new, eff)
        }
    } else if old.pending == Pending::Delete {
        if k == Key::Char('d') {
            new == idle && match old.selected_path_text() {
                Some(rel) => eff matches Effect::SoftDelete { path, trashed, rel: r } && path@
                    == join_path(old.directory@, rel) && r@ == rel && exists|stamp: Seq<char>|
                    crate::notes::is_stamp_text(stamp) && trashed@ == join_path(
                        join_path(old.directory@, ".scribe-trash"@),
                        trashed_name(old.directory@, path@, stamp),
                    ),
                None => eff is Nothing,
            }
        } else {
            normal_key(idle, press, new, eff)
        }
    } else {
        normal_key(old, press, new, eff)
    }
}

pub open spec fn is_modes_key(k: Key) -> bool {
    match k {
        Key::Char('q') | Key::Char('?') | Key::Char('i') | Key::Char('I') | Key::Char('t') | Key::Char('T') | Key::Char('s') | Key::Char('R') | Key::Char('c') | Key::Char('H') | Key::Char('p') | Key::Char('e') | Key::Char('d') => true,
        _ => false,
    }
}

pub open spec fn is_actions_key(k: Key) -> bool {
    match k {
        Key::Char('r') | Key::Char('/') | Key::Char('n') | Key::Char('N') | Key::Tab | Key::BackTab | Key::Char('o') | Key::Char('u') => true,
        _ => false,
    }
}

pub open spec fn is_moves_key(k: Key) -> bool {
    match k {
        Key::Char('j') | Key::Down | Key::Char('k') | Key::Up | Key::Char('g') | Key::Char('G') | Key::PageDown | Key::PageUp | Key::Esc => true,
        _ => false,
    }
}

impl App {
    fn selected_full(&self) -> (r: Option<String>)
        requires
            self.wf(),
        ensures
            match r {
                Some(p) => selected_full_path(*self) == Some(p@),
                None => selected_full_path(*self) is None,
            },
    {
        match self.selected_rel_path() {
            Some(rel) => Some(join(self.directory.as_str(), rel.as_str())),
            None => None,
        }
    }

    fn normal_key_modes(&mut self, press: KeyPress) -> (eff: Effect)
        requires
            old(self).wf(),
            is_modes_key(press.key),
        ensures
            final(self).wf(),
            normal_key(*old(self), press, *final(self), eff),
    {

        match press.key {
            Key::Char('q') => Effect::Quit,
            Key::Char('?') => {
                self.mode = AppMode::Help;
                Effect::Nothing
            },
            Key::Char('i') => {
                self.mode = AppMode::Create;
                self.input = String::new();
                Effect::Nothing
            },
            Key::Char('I') => {
                self.mode = AppMode::Create;
                self.input = String::new();
                self.target_cwd = true;
                Effect::Nothing
            },
            Key::Char('t') => {
                self.mode = AppMode::TemplatePick;
                self.template_selected = Some(0);
                Effect::Nothing
            },
            Key::Char('T') => {
                self.mode = AppMode::TemplatePick;
                self.template_selected = Some(0);
                self.target_cwd = true;
                Effect::Nothing
            },
            Key::Char('s') => Effect::CycleSort,
            Key::Char('R') => Effect::ToggleRecursive,
            Key::Char('c') => {
                self.mode = AppMode::DirPick;
                self.input = String::new();
                self.recent_selected = Some(0);
                self.dir_pick_focus = DirPickFocus::Recents;
                Effect::Nothing
            },
            Key::Char('H') => {
                match &self.cwd {
                    Some(c) => Effect::ChangeDir { target: c.clone() },
                    None => Effect::Nothing,
                }
            },
            Key::Char('p') => {
                self.preview_open = !self.preview_open;
                if !self.preview_open {
                    self.focus = Focus::List;
                }
                Effect::Nothing
            },
            Key::Char('e') => {
                self.pending = Pending::Export;
                Effect::Nothing
            },
            Key::Char('d') => {
                self.pending = Pending::Delete;
                Effect::Nothing
            },
            _ => Effect::Nothing,
        }
    }

    fn normal_key_actions(&mut self, press: KeyPress) -> (eff: Effect)
        requires
            old(self).wf(),
            is_actions_key(press.key),
        ensures
            final(self).wf(),
            normal_key(*old(self), press, *final(self), eff),
    {

        match press.key {
            Key::Char('r') => {
                match self.selected_rel_path() {
                    Some(rel) => {
                        self.rename_from = Some(join(self.directory.as_str(), rel.as_str()));
                        self.input = rel;
                        self.mode = AppMode::Rename;
                    },
                    None => {
                        self.set_error("Nothing to rename");
                    },
                }
                Effect::Nothing
            },
            Key::Char('/') => {
                self.mode = AppMode::Search;
                self.recompute_filter(true);
                Effect::Nothing
            },
            Key::Char('n') => {
                if !self.search_query.as_str().is_empty() {
                    self.mode = AppMode::Search;
                } else {
                    self.set_status("No previous search");
                }
                Effect::Nothing
            },
            Key::Char('N') => {
                if !self.search_query.as_str().is_empty() {
                    self.search_query = String::new();
                    self.recompute_filter(false);
                    self.set_status("Search cleared");
                }
                Effect::Nothing
            },
            Key::Tab => {
                if self.preview_open {
                    self.focus = match self.focus {
                        Focus::List => Focus::Preview,
                        Focus::Preview => Focus::List,
                    };
                } else {
                    self.toggle_target();
                    let msg = cat("Target: ", self.target_label());
                    self.set_status(msg.as_str());
                }
                Effect::Nothing
            },
            Key::BackTab => {
                self.toggle_target();
                let msg = cat("Target: ", self.target_label());
                self.set_status(msg.as_str());
                Effect::Nothing
            },
            Key::Char('o') => {
                match self.selected_full() {
                    Some(path) => Effect::OpenEditor { path },
                    None => Effect::Nothing,
                }
            },
            Key::Char('u') => {
                match &self.last_trash {
                    Some(rec) => Effect::Restore {
                        trashed: rec.trashed_path.clone(),
                        original: rec.original_path.clone(),
                        display: rec.display_name.clone(),
                    },
                    None => {
                        self.set_status("Nothing to undo");
                        Effect::Nothing
                    },
                }
            },
            _ => Effect::Nothing,
        }
    }

    fn normal_key_moves(&mut self, press: KeyPress) -> (eff: Effect)
        requires
            old(self).wf(),
            is_moves_key(press.key),
        ensures
            final(self).wf(),
            normal_key(*old(self), press, *final(self), eff),
    {
        let len = self.filtered_indices.len();
        match press.key {
            Key::Char('j') | Key::Down => {
                if self.focus == Focus::Preview {
                    self.preview_scroll = self.preview_scroll.saturating_add(1);
                } else {
                    self.move_selection(1);
                }
                Effect::Nothing
            },
            Key::Char('k') | Key::Up => {
                if self.focus == Focus::Preview {
                    self.preview_scroll = self.preview_scroll.saturating_sub(1);
                } else {
                    self.move_selection(-1);
                }
                Effect::Nothing
            },
            Key::Char('g') => {
                if self.focus == Focus::Preview {
                    self.preview_scroll = 0;
                } else if len > 0 {
                    self.selected = Some(0);
                    self.preview_cache = None;
                }
                Effect::Nothing
            },
            Key::Char('G') => {
                if self.focus == Focus::Preview {
                    self.preview_scroll = 32767;
                } else if len > 0 {
                    self.selected = Some(len - 1);
                    self.preview_cache = None;
                }
                Effect::Nothing
            },
            Key::PageDown => {
                if self.focus == Focus::Preview {
                    self.preview_scroll = self.preview_scroll.saturating_add(10);
                } else {
                    self.move_selection(10);
                }
                Effect::Nothing
            },
            Key::PageUp => {
                if self.focus == Focus::Preview {
                    self.preview_scroll = self.preview_scroll.saturating_sub(10);
                } else {
                    self.move_selection(-10);
                }
                Effect::Nothing
            },
            Key::Esc => {
                self.clear_status();
                Effect::Nothing
            },

            _ => Effect::Nothing,
        }
    }

    fn normal_key(&mut self, press: KeyPress) -> (eff: Effect)
        requires
            old(self).wf(),
        ensures
            final(self).wf(),
            normal_key(*old(self), press, *final(self), eff),
    {
        match press.key {
            Key::Char('q') | Key::Char('?') | Key::Char('i') | Key::Char('I') | Key::Char('t') | Key::Char('T') | Key::Char('s') | Key::Char('R') | Key::Char('c') | Key::Char('H') | Key::Char('p') | Key::Char('e') | Key::Char('d') => self.normal_key_modes(press),
            Key::Char('r') | Key::Char('/') | Key::Char('n') | Key::Char('N') | Key::Tab | Key::BackTab | Key::Char('o') | Key::Char('u') => self.normal_key_actions(press),
            Key::Char('j') | Key::Down | Key::Char('k') | Key::Up | Key::Char('g') | Key::Char('G') | Key::PageDown | Key::PageUp | Key::Esc => self.normal_key_moves(press),
            _ => Effect::Nothing,
        }
    }

    /// A key in normal mode.
    pub fn handle_normal(&mut self, press: KeyPress) -> (eff: Effect)
        requires
            old(self).wf(),
        ensures
            final(self).wf(),
            normal_step(*old(self), press, *final(self), eff),
    {
        let k = press.key;
        if self.pending == Pending::Export {
            if k == Key::Char('h') || k == Key::Char('p') {
                let target = self.selected_full();
                self.pending = Pending::Idle;
                return match target {
                    Some(path) => Effect::Export {
                        path,
                        format: if k == Key::Char('h') {
                            ExportFormat::Html
                        } else {
                            ExportFormat::Pdf
                        },
                    },
                    None => Effect::Nothing,
                };
            }
            self.pending = Pending::Idle;
        } else if self.pending == Pending::Delete {
            if k == Key::Char('d') {
                let rel = self.selected_rel_path();
                self.pending = Pending::Idle;
                return match rel {
                    Some(r) => {
                        let path = join(self.directory.as_str(), r.as_str());
                        let trashed = trashed_path(self.directory.as_str(), path.as_str());
                        Effect::SoftDelete { path, trashed, rel: r }
                    },
                    None => Effect::Nothing,
                };
            }
            self.pending = Pending::Idle;
        }
        self.normal_key(press)
    }
}


/// A key while typing a title in create mode.
pub open spec fn create_step(old: App, press: KeyPress, new: App, eff: Effect) -> bool {
    match press.key {
        Key::Enter => if old.input@.len() > 0 {
            &&& new == (App { input: new.input, mode: AppMode::Normal, ..old })
            &&& new.input@.len() == 0
            &&& creates(old, old.input@, false, eff)
        } else {
            new == old && eff is Nothing
        },
        Key::Esc => new == (App { input: new.input, mode: AppMode::Normal, ..old })
            && new.input@.len() == 0 && eff is Nothing,
        Key::Tab => new == (App { target_cwd: !old.target_cwd, ..old }) && eff is Nothing,
        Key::Char(c) => new == (App { input: new.input, ..old }) && new.input@ == old.input@.push(c)
            && eff is Nothing,
        Key::Backspace => new == (App { input: new.input, ..old }) && new.input@ == popped(
            old.input@,
        ) && eff is Nothing,
        _ => new == old && eff is Nothing,
    }
}

/// A key while typing the new name in rename mode.
pub open spec fn rename_step(old: App, press: KeyPress, new: App, eff: Effect) -> bool {
    match press.key {
        Key::Enter => if old.input@.len() > 0 {
            &&& new == (App { input: new.input, rename_from: None, mode: AppMode::Normal, ..old })
            &&& new.input@.len() == 0
            &&& match old.rename_from {
                Some(from) => eff matches Effect::Rename { from: f, to, new_rel } && f@ == from@
                    && new_rel@ == ensured_adoc(old.input@) && to@ == join_path(
                    old.directory@,
                    new_rel@,
                ),
                None => eff is Nothing,
            }
        } else {
            new == old && eff is Nothing
        },
        Key::Esc => new == (App { input: new.input, rename_from: None, mode: AppMode::Normal, ..old })
            && new.input@.len() == 0 && eff is Nothing,
        Key::Char(c) => new == (App { input: new.input, ..old }) && new.input@ == old.input@.push(c)
            && eff is Nothing,
        Key::Backspace => new == (App { input: new.input, ..old }) && new.input@ == popped(
            old.input@,
        ) && eff is Nothing,
        _ => new == old && eff is Nothing,
    }
}

pub open spec fn sel_or_zero(s: Option<usize>) -> int {
    match s {
        Some(i) => i as int,
        None => 0,
    }
}

/// A key in the template picker.
pub open spec fn template_step(old: App, press: KeyPress, new: App, eff: Effect) -> bool {
    let sel = sel_or_zero(old.template_selected);
    let len = old.templates@.len();
    eff is Nothing && match press.key {
        Key::Esc => new == (App { mode: AppMode::Normal, ..old }),
        Key::Enter => new == (App {
            chosen_template: if 0 <= sel < len {
                old.templates@[sel]
            } else {
                old.chosen_template
            },
            input: new.input,
            mode: AppMode::Create,
            ..old
        }) && new.input@.len() == 0,
        Key::Tab => new == (App { target_cwd: !old.target_cwd, ..old }),
        Key::Char('j') | Key::Down => if sel + 1 < len {
            new == (App { template_selected: Some((sel + 1) as usize), ..old })
        } else {
            new == old
        },
        Key::Char('k') | Key::Up => if sel > 0 {
            new == (App { template_selected: Some((sel - 1) as usize), ..old })
        } else {
            new == old
        },
        _ => new == old,
    }
}

/// A key in search mode: typing narrows the list, `j`/`k` and the arrow
/// keys move the highlight, Enter opens the highlighted document, Control-N
/// creates one titled after the query.
pub open spec fn search_step(old: App, press: KeyPress, new: App, eff: Effect) -> bool {
    if press.ctrl && press.key == Key::Char('n') {
        new == old && if old.search_query@.len() > 0 {
            creates(old, old.search_query@, true, eff)
        } else {
            eff is Nothing
        }
    } else {
        match press.key {
            Key::Esc => eff is Nothing && new.search_query@.len() == 0 && refiltered(
                App { search_query: new.search_query, mode: AppMode::Normal, ..old },
                false,
                new,
            ),
            Key::Enter => match selected_full_path(old) {
                Some(p) => new == (App { mode: AppMode::Normal, ..old }) && (eff matches Effect::OpenEditor {
                    path,
                } && path@ == p),
                None => new == old && eff is Nothing,
            },
            Key::Backspace => eff is Nothing && new.search_query@ == popped(old.search_query@)
                && refiltered(App { search_query: new.search_query, ..old }, true, new),
            Key::Char('k') | Key::Up => eff is Nothing && new == moved(old, -1),
            Key::Char('j') | Key::Down => eff is Nothing && new == moved(old, 1),
            Key::Char(c) => eff is Nothing && new.search_query@ == old.search_query@.push(c)
                && refiltered(App { search_query: new.search_query, ..old }, true, new),
            _ => new == old && eff is Nothing,
        }
    }
}

/// The recent directory the picker points at, or the empty text.
pub open spec fn picked_dir(app: App) -> Seq<char> {
    let idx = sel_or_zero(app.recent_selected);
    if 0 <= idx < app.recent_dirs@.len() {
        app.recent_dirs@[idx]@
    } else {
        Seq::empty()
    }
}

/// A key in the directory picker.
pub open spec fn dir_pick_step(old: App, press: KeyPress, new: App, eff: Effect) -> bool {
    let sel = sel_or_zero(old.recent_selected);
    let len = old.recent_dirs@.len();
    if press.key == Key::Tab || press.key == Key::BackTab {
        new == (App {
            dir_pick_focus: match old.dir_pick_focus {
                DirPickFocus::Recents => DirPickFocus::NewPath,
                DirPickFocus::NewPath => DirPickFocus::Recents,
            },
            ..old
        }) && eff is Nothing
    } else if press.key == Key::Esc {
        new == (App { input: new.input, mode: AppMode::Normal, ..old }) && new.input@.len() == 0
            && eff is Nothing
    } else if old.dir_pick_focus == DirPickFocus::Recents {
        match press.key {
            Key::Enter => if picked_dir(old).len() == 0 {
                eff is Nothing && with_status(old, new, "No directory selected"@, true)
            } else {
                new == old && (eff matches Effect::CheckDir { target } && target@ == picked_dir(old))
            },
            Key::Char('j') | Key::Down => eff is Nothing && if sel + 1 < len {
                new == (App { recent_selected: Some((sel + 1) as usize), ..old })
            } else {
                new == old
            },
            Key::Char('k') | Key::Up => eff is Nothing && if sel > 0 {
                new == (App { recent_selected: Some((sel - 1) as usize), ..old })
            } else {
                new == old
            },
            Key::Char('g') => eff is Nothing && if len > 0 {
                new == (App { recent_selected: Some(0), ..old })
            } else {
                new == old
            },
            Key::Char('G') => eff is Nothing && if len > 0 {
                new == (App { recent_selected: Some((len - 1) as usize), ..old })
            } else {
                new == old
            },
            _ => new == old && eff is Nothing,
        }
    } else {
        match press.key {
            Key::Enter => if old.input@.len() == 0 {
                eff is Nothing && with_status(old, new, "Type a path or Tab back to the list"@, true)
            } else {
                new == old && (eff matches Effect::CheckDir { target } && exists|home: Option<Seq<char>>|
                    target@ == expanded_path(old.input@, home))
            },
            Key::Char(c) => new == (App { input: new.input, ..old }) && new.input@ == old.input@.push(
                c,
            ) && eff is Nothing,
            Key::Backspace => new == (App { input: new.input, ..old }) && new.input@ == popped(
                old.input@,
            ) && eff is Nothing,
            _ => new == old && eff is Nothing,
        }
    }
}

/// A key on the help screen: `?`, Esc or `q` close it.
pub open spec fn help_step(old: App, press: KeyPress, new: App, eff: Effect) -> bool {
    eff is Nothing && if press.key == Key::Char('?') || press.key == Key::Esc || press.key == Key::Char(
        'q',
    ) {
        new == (App { mode: AppMode::Normal, ..old })
    } else {
        new == old
    }
}

/// A key, by the mode it arrives in.
pub open spec fn mode_step(old: App, press: KeyPress, new: App, eff: Effect) -> bool {
    match old.mode {
        AppMode::Normal => normal_step(old, press, new, eff),
        AppMode::Create => create_step(old, press, new, eff),
        AppMode::Rename => rename_step(old, press, new, eff),
        AppMode::TemplatePick => template_step(old, press, new, eff),
        AppMode::Search => search_step(old, press, new, eff),
        AppMode::Help => help_step(old, press, new, eff),
        AppMode::DirPick => dir_pick_step(old, press, new, eff),
    }
}

/// After a key, a status message that the key left as it was is dismissed
/// when the key was Esc and the interface is back in normal mode.
pub open spec fn dismisses(before: App, after: App, press: KeyPress) -> bool {
    &&& before.status_message is Some
    &&& after.status_message is Some
    &&& before.status_message->0.text@ == after.status_message->0.text@
    &&& press.key != Key::Char('?')
    &&& after.mode == AppMode::Normal
    &&& press.key == Key::Esc
}

impl App {
    fn prepare_note(&self, title: &String, open_after: bool) -> (eff: Effect)
        ensures
            creates(*self, title@, open_after, eff),
    {
        let dir = self.target_dir();
        let name = ensure_adoc_extension(title.as_str());
        let path = join(dir.as_str(), name.as_str());
        let bare = strip_adoc_extension(title.as_str());
        let contents = self.chosen_template.render(bare, self.author.as_str());
        Effect::Create { dir, path, contents, open_after }
    }

    /// A key while typing a title in create mode.
    pub fn handle_create(&mut self, press: KeyPress) -> (eff: Effect)
        requires
            old(self).wf(),
        ensures
            final(self).wf(),
            create_step(*old(self), press, *final(self), eff),
    {
        match press.key {
            Key::Enter => {
                if !self.input.as_str().is_empty() {
                    let eff = self.prepare_note(&self.input, false);
                    self.input = String::new();
                    self.mode = AppMode::Normal;
                    eff
                } else {
                    Effect::Nothing
                }
            },
            Key::Esc => {
                self.input = String::new();
                self.mode = AppMode::Normal;
                Effect::Nothing
            },
            Key::Tab => {
                self.toggle_target();
                Effect::Nothing
            },
            Key::Char(c) => {
                self.input = crate::text::with_char(&self.input, c);
                Effect::Nothing
            },
            Key::Backspace => {
                self.input = crate::text::without_last(&self.input);
                Effect::Nothing
            },
            _ => Effect::Nothing,
        }
    }

    /// A key while typing the new name in rename mode.
    pub fn handle_rename(&mut self, press: KeyPress) -> (eff: Effect)
        requires
            old(self).wf(),
        ensures
            final(self).wf(),
            rename_step(*old(self), press, *final(self), eff),
    {
        match press.key {
            Key::Enter => {
                if !self.input.as_str().is_empty() {
                    let eff = match &self.rename_from {
                        Some(from) => {
                            let new_rel = ensure_adoc_extension(self.input.as_str());
                            let to = join(self.directory.as_str(), new_rel.as_str());
                            Effect::Rename { from: from.clone(), to, new_rel }
                        },
                        None => Effect::Nothing,
                    };
                    self.input = String::new();
                    self.rename_from = None;
                    self.mode = AppMode::Normal;
                    eff
                } else {
                    Effect::Nothing
                }
            },
            Key::Esc => {
                self.input = String::new();
                self.rename_from = None;
                self.mode = AppMode::Normal;
                Effect::Nothing
            },
            Key::Char(c) => {
                self.input = crate::text::with_char(&self.input, c);
                Effect::Nothing
            },
            Key::Backspace => {
                self.input = crate::text::without_last(&self.input);
                Effect::Nothing
            },
            _ => Effect::Nothing,
        }
    }

    /// A key in the template picker.
    pub fn handle_template_pick(&mut self, press: KeyPress) -> (eff: Effect)
        requires
            old(self).wf(),
        ensures
            final(self).wf(),
            template_step(*old(self), press, *final(self), eff),
    {
        let sel: usize = match self.template_selected {
            Some(i) => i,
            None => 0,
        };
        match press.key {
            Key::Esc => {
                self.mode = AppMode::Normal;
            },
            Key::Enter => {
                if sel < self.templates.len() {
                    self.chosen_template = self.templates[sel];
                }
                self.input = String::new();
                self.mode = AppMode::Create;
            },
            Key::Tab => {
                self.toggle_target();
            },
            Key::Char('j') | Key::Down => {
                if sel < self.templates.len() && sel + 1 < self.templates.len() {
                    self.template_selected = Some(sel + 1);
                }
            },
            Key::Char('k') | Key::Up => {
                if sel > 0 {
                    self.template_selected = Some(sel - 1);
                }
            },
            _ => {},
        }
        Effect::Nothing
    }

    /// A key in search mode.
    pub fn handle_search(&mut self, press: KeyPress) -> (eff: Effect)
        requires
            old(self).wf(),
        ensures
            final(self).wf(),
            search_step(*old(self), press, *final(self), eff),
    {
        if press.ctrl && press.key == Key::Char('n') {
            if !self.search_query.as_str().is_empty() {
                return self.prepare_note(&self.search_query, true);
            }
            return Effect::Nothing;
        }
        match press.key {
            Key::Esc => {
                self.search_query = String::new();
                self.mode = AppMode::Normal;
                self.recompute_filter(false);
                Effect::Nothing
            },
            Key::Enter => {
                match self.selected_full() {
                    Some(path) => {
                        self.mode = AppMode::Normal;
                        Effect::OpenEditor { path }
                    },
                    None => Effect::Nothing,
                }
            },
            Key::Backspace => {
                self.search_query = crate::text::without_last(&self.search_query);
                self.recompute_filter(true);
                Effect::Nothing
            },
            Key::Char('k') | Key::Up => {
                self.move_selection(-1);
                Effect::Nothing
            },
            Key::Char('j') | Key::Down => {
                self.move_selection(1);
                Effect::Nothing
            },
            Key::Char(c) => {
                self.search_query = crate::text::with_char(&self.search_query, c);
                self.recompute_filter(true);
                Effect::Nothing
            },
            _ => Effect::Nothing,
        }
    }

    /// A key in the directory picker.
    pub fn handle_dir_pick(&mut self, press: KeyPress) -> (eff: Effect)
        requires
            old(self).wf(),
        ensures
            final(self).wf(),
            dir_pick_step(*old(self), press, *final(self), eff),
    {
        if press.key == Key::Tab || press.key == Key::BackTab {
            self.dir_pick_focus = match self.dir_pick_focus {
                DirPickFocus::Recents => DirPickFocus::NewPath,
                DirPickFocus::NewPath => DirPickFocus::Recents,
            };
            return Effect::Nothing;
        }
        if press.key == Key::Esc {
            self.input = String::new();
            self.mode = AppMode::Normal;
            return Effect::Nothing;
        }
        let sel: usize = match self.recent_selected {
            Some(i) => i,
            None => 0,
        };
        let len = self.recent_dirs.len();
        if self.dir_pick_focus == DirPickFocus::Recents {
            match press.key {
                Key::Enter => {
                    let target = if sel < len {
                        self.recent_dirs[sel].clone()
                    } else {
                        String::new()
                    };
                    if target.as_str().is_empty() {
                        self.set_error("No directory selected");
                        Effect::Nothing
                    } else {
                        Effect::CheckDir { target }
                    }
                },
                Key::Char('j') | Key::Down => {
                    if sel < len && sel + 1 < len {
                        self.recent_selected = Some(sel + 1);
                    }
                    Effect::Nothing
                },
                Key::Char('k') | Key::Up => {
                    if sel > 0 {
                        self.recent_selected = Some(sel - 1);
                    }
                    Effect::Nothing
                },
                Key::Char('g') => {
                    if len > 0 {
                        self.recent_selected = Some(0);
                    }
                    Effect::Nothing
                },
                Key::Char('G') => {
                    if len > 0 {
                        self.recent_selected = Some(len - 1);
                    }
                    Effect::Nothing
                },
                _ => Effect::Nothing,
            }
        } else {
            match press.key {
                Key::Enter => {
                    if self.input.as_str().is_empty() {
                        self.set_error("Type a path or Tab back to the list");
                        Effect::Nothing
                    } else {
                        Effect::CheckDir { target: expand_path(self.input.as_str()) }
                    }
                },
                Key::Char(c) => {
                    self.input = crate::text::with_char(&self.input, c);
                    Effect::Nothing
                },
                Key::Backspace => {
                    self.input = crate::text::without_last(&self.input);
                    Effect::Nothing
                },
                _ => Effect::Nothing,
            }
        }
    }

    /// A key on the help screen.
    pub fn handle_help(&mut self, press: KeyPress) -> (eff: Effect)
        requires
            old(self).wf(),
        ensures
            final(self).wf(),
            help_step(*old(self), press, *final(self), eff),
    {
        if press.key == Key::Char('?') || press.key == Key::Esc || press.key == Key::Char('q') {
            self.mode = AppMode::Normal;
        }
        Effect::Nothing
    }

    /// One key press: handled by the current mode; then a status message the
    /// key did not change is dismissed if the key was Esc and the interface
    /// is in normal mode.
    pub fn handle_key(&mut self, press: KeyPress) -> (eff: Effect)
        requires
            old(self).wf(),
        ensures
            final(self).wf(),
            exists|mid: App|
                #[trigger] mode_step(*old(self), press, mid, eff) && *final(self) == if dismisses(
                    *old(self),
                    mid,
                    press,
                ) {
                    App { status_message: None, ..mid }
                } else {
                    mid
                },
    {
        let prev: Option<String> = match &self.status_message {
            Some(e) => Some(e.text.clone()),
            None => None,
        };
        let eff = match self.mode {
            AppMode::Normal => self.handle_normal(press),
            AppMode::Create => self.handle_create(press),
            AppMode::Rename => self.handle_rename(press),
            AppMode::TemplatePick => self.handle_template_pick(press),
            AppMode::Search => self.handle_search(press),
            AppMode::Help => self.handle_help(press),
            AppMode::DirPick => self.handle_dir_pick(press),
        };
        let ghost mid = *self;
        assert(mode_step(*old(self), press, mid, eff));
        let same = match (&prev, &self.status_message) {
            (Some(p), Some(cur)) => *p == cur.text,
            _ => false,
        };
        if same && press.key != Key::Char('?') && self.mode == AppMode::Normal && press.key == Key::Esc {
            self.clear_status();
        }
        eff
    }
}


/// Whether two paths name the same place component by component, as std's
/// `Path` equality tells.
pub uninterp spec fn paths_equal(a: Seq<char>, b: Seq<char>) -> bool;

/// std's `==` on `Path`s. The answer is a function of the two texts alone;
/// which texts it takes as equal is left unsaid.
#[verifier::external_body]
fn same_path(a: &str, b: &str) -> (r: bool)
    ensures
        r == paths_equal(a@, b@),
{
    std::path::Path::new(a) == std::path::Path::new(b)
}

/// What the preview pane needs before it is drawn.
pub enum PreviewNeed {
    /// Nothing is highlighted: the pane is blank.
    Clear,
    /// The pane already shows the highlighted document.
    Keep,
    /// Render the document `name` at `path` and hand the text to `set_preview`.
    Render { name: String, path: String },
}

/// The app after `text` was shown as a status and `old`'s other fields kept.
pub open spec fn keeps_status_of(old: App, new: App) -> App {
    App { status_log: old.status_log, status_message: old.status_message, ..new }
}

/// `new` is `old` after the document at `path` (listed as `rel`) went to
/// `trashed`: the deletion is remembered for undo, the listing made after it
/// (`walked`, `bodies`) is taken in, and the deletion is reported.
pub open spec fn took_deletion(
    old: App,
    path: Seq<char>,
    trashed: Seq<char>,
    rel: Seq<char>,
    walked: Seq<crate::notes::NoteEntry>,
    bodies: Seq<(String, String)>,
    new: App,
) -> bool {
    let with_trash = App { last_trash: new.last_trash, ..old };
    &&& new.last_trash matches Some(rec) && rec.trashed_path@ == trashed && rec.original_path@ == path
        && rec.display_name@ == rel
    &&& reloaded(with_trash, walked, bodies, keeps_status_of(old, new))
    &&& with_status(keeps_status_of(old, new), new, "Deleted "@ + rel + " — press 'u' to undo"@, false)
}

impl App {
    /// Report how an export went: where the file was written, or why not.
    pub fn finish_export(&mut self, format: ExportFormat, outcome: Result<String, String>)
        requires
            old(self).wf(),
        ensures
            final(self).wf(),
            match outcome {
                Ok(out) => with_status(
                    *old(self),
                    *final(self),
                    (if format == ExportFormat::Html {
                        "Exported HTML -> "@
                    } else {
                        "Exported PDF -> "@
                    }) + out@,
                    false,
                ),
                Err(e) => with_status(*old(self), *final(self), "Export failed: "@ + e@, true),
            },
    {
        match outcome {
            Ok(out) => {
                let head = if format == ExportFormat::Html {
                    "Exported HTML -> "
                } else {
                    "Exported PDF -> "
                };
                let msg = cat(head, out.as_str());
                self.set_status(msg.as_str());
            },
            Err(e) => {
                let msg = cat("Export failed: ", e.as_str());
                self.set_error(msg.as_str());
            },
        }
    }

    /// Report a deletion: on success remember it for undo and take in the
    /// listing made after it.
    pub fn finish_delete(&mut self, path: String, trashed: String, rel: String, outcome: Result<Listing, String>)
        requires
            old(self).wf(),
        ensures
            final(self).wf(),
            match outcome {
                Ok(l) => took_deletion(*old(self), path@, trashed@, rel@, l.notes@, l.bodies@, *final(self)),
                Err(e) => with_status(*old(self), *final(self), "Delete failed: "@ + e@, true),
            },
    {
        match outcome {
            Ok(l) => {
                let msg = cat(cat("Deleted ", rel.as_str()).as_str(), " — press 'u' to undo");
                self.last_trash = Some(
                    crate::app::TrashRecord { trashed_path: trashed, original_path: path, display_name: rel },
                );
                self.refresh_notes(l.notes, l.bodies);
                self.set_status(msg.as_str());
            },
            Err(e) => {
                let msg = cat("Delete failed: ", e.as_str());
                self.set_error(msg.as_str());
            },
        }
    }

    /// Report an undo: on success forget the deletion and take in the
    /// listing made after it.
    pub fn finish_restore(&mut self, display: String, outcome: Result<Listing, String>)
        requires
            old(self).wf(),
        ensures
            final(self).wf(),
            match outcome {
                Ok(l) => {
                    &&& final(self).last_trash is None
                    &&& reloaded(
                        App { last_trash: None, ..*old(self) },
                        l.notes@,
                        l.bodies@,
                        keeps_status_of(*old(self), *final(self)),
                    )
                    &&& with_status(
                        keeps_status_of(*old(self), *final(self)),
                        *final(self),
                        "Restored "@ + display@,
                        false,
                    )
                },
                Err(e) => with_status(*old(self), *final(self), "Undo failed: "@ + e@, true),
            },
    {
        match outcome {
            Ok(l) => {
                self.last_trash = None;
                self.refresh_notes(l.notes, l.bodies);
                let msg = cat("Restored ", display.as_str());
                self.set_status(msg.as_str());
            },
            Err(e) => {
                let msg = cat("Undo failed: ", e.as_str());
                self.set_error(msg.as_str());
            },
        }
    }

    /// Report a rename: on success take in the listing made after it.
    pub fn finish_rename(&mut self, new_rel: String, outcome: Result<Listing, String>)
        requires
            old(self).wf(),
        ensures
            final(self).wf(),
            match outcome {
                Ok(l) => {
                    &&& reloaded(*old(self), l.notes@, l.bodies@, keeps_status_of(*old(self), *final(self)))
                    &&& with_status(
                        keeps_status_of(*old(self), *final(self)),
                        *final(self),
                        "Renamed to "@ + new_rel@,
                        false,
                    )
                },
                Err(e) => with_status(*old(self), *final(self), "Rename failed: "@ + e@, true),
            },
    {
        match outcome {
            Ok(l) => {
                self.refresh_notes(l.notes, l.bodies);
                let msg = cat("Renamed to ", new_rel.as_str());
                self.set_status(msg.as_str());
            },
            Err(e) => {
                let msg = cat("Rename failed: ", e.as_str());
                self.set_error(msg.as_str());
            },
        }
    }

    /// Report a new document. Created from the title prompt, the listing is
    /// taken in only when the document went into the listed directory;
    /// created from the search, the search ends, the listing is taken in and
    /// the document is to be opened.
    pub fn finish_create(&mut self, dir: String, path: String, open_after: bool, outcome: Result<Listing, String>) -> (eff: Effect)
        requires
            old(self).wf(),
        ensures
            final(self).wf(),
            match outcome {
                Ok(l) => {
                    let listed = keeps_status_of(*old(self), *final(self));
                    &&& with_status(listed, *final(self), "Created "@ + path@, false)
                    &&& if open_after {
                        &&& final(self).search_query@.len() == 0
                        &&& reloaded(
                            App {
                                search_query: final(self).search_query,
                                mode: AppMode::Normal,
                                ..*old(self)
                            },
                            l.notes@,
                            l.bodies@,
                            listed,
                        )
                        &&& eff matches Effect::OpenEditor { path: p } && p@ == path@
                    } else {
                        &&& eff is Nothing
                        &&& if paths_equal(dir@, old(self).directory@) {
                            reloaded(*old(self), l.notes@, l.bodies@, listed)
                        } else {
                            listed == *old(self)
                        }
                    }
                },
                Err(e) => eff is Nothing && with_status(*old(self), *final(self), "Create failed: "@ + e@, true),
            },
    {
        match outcome {
            Ok(l) => {
                let msg = cat("Created ", path.as_str());
                if open_after {
                    self.search_query = String::new();
                    self.mode = AppMode::Normal;
                    self.refresh_notes(l.notes, l.bodies);
                    self.set_status(msg.as_str());
                    Effect::OpenEditor { path }
                } else {
                    if same_path(dir.as_str(), self.directory.as_str()) {
                        self.refresh_notes(l.notes, l.bodies);
                    }
                    self.set_status(msg.as_str());
                    Effect::Nothing
                }
            },
            Err(e) => {
                let msg = cat("Create failed: ", e.as_str());
                self.set_error(msg.as_str());
                Effect::Nothing
            },
        }
    }

    /// After the editor closes the document may have changed: forget the
    /// rendered preview.
    pub fn finish_open(&mut self)
        ensures
            *final(self) == (App { preview_cache: None, ..*old(self) }),
    {
        self.preview_cache = None;
    }

    /// Sort by the next mode (the directory listed again as `walked`) and say
    /// so.
    pub fn finish_cycle_sort(&mut self, walked: Vec<crate::notes::NoteEntry>)
        requires
            old(self).wf(),
        ensures
            final(self).wf(),
            resorted(*old(self), walked@, keeps_status_of(*old(self), *final(self))),
            with_status(
                keeps_status_of(*old(self), *final(self)),
                *final(self),
                "Sort: "@ + crate::notes::sort_label(final(self).sort),
                false,
            ),
    {
        self.cycle_sort(walked);
        let msg = cat("Sort: ", self.sort.label());
        self.set_status(msg.as_str());
    }

    /// Flip recursive listing (the directory listed again with it flipped)
    /// and say so.
    pub fn finish_toggle_recursive(&mut self, listing: Listing)
        requires
            old(self).wf(),
        ensures
            final(self).wf(),
            final(self).recursive == !old(self).recursive,
            reloaded(
                App { recursive: final(self).recursive, ..*old(self) },
                listing.notes@,
                listing.bodies@,
                keeps_status_of(*old(self), *final(self)),
            ),
            with_status(
                keeps_status_of(*old(self), *final(self)),
                *final(self),
                if final(self).recursive {
                    "Recursive listing ON"@
                } else {
                    "Recursive listing OFF"@
                },
                false,
            ),
    {
        self.toggle_recursive(listing.notes, listing.bodies);
        if self.recursive {
            self.set_status("Recursive listing ON");
        } else {
            self.set_status("Recursive listing OFF");
        }
    }

    /// Switch to `target` (listed as `listing`) and say so.
    pub fn finish_change_dir(&mut self, target: String, listing: Listing)
        requires
            old(self).wf(),
        ensures
            final(self).wf(),
            crate::app::moved_to(
                *old(self),
                target@,
                listing.notes@,
                listing.bodies@,
                keeps_status_of(*old(self), *final(self)),
            ),
            with_status(
                keeps_status_of(*old(self), *final(self)),
                *final(self),
                "Switched to "@ + target@,
                false,
            ),
    {
        self.change_directory(target.as_str(), listing.notes, listing.bodies);
        let msg = cat("Switched to ", target.as_str());
        self.set_status(msg.as_str());
    }

    /// Report on a directory chosen in the picker: `None` when it is not a
    /// directory, else its listing, and the picker closes.
    pub fn finish_dir_pick(&mut self, target: String, listing: Option<Listing>)
        requires
            old(self).wf(),
        ensures
            final(self).wf(),
            match listing {
                Some(l) => {
                    let closed = App { input: final(self).input, mode: AppMode::Normal, ..*old(self) };
                    &&& final(self).input@.len() == 0
                    &&& crate::app::moved_to(
                        closed,
                        target@,
                        l.notes@,
                        l.bodies@,
                        keeps_status_of(*old(self), *final(self)),
                    )
                    &&& with_status(
                        keeps_status_of(*old(self), *final(self)),
                        *final(self),
                        "Switched to "@ + target@,
                        false,
                    )
                },
                None => with_status(*old(self), *final(self), "Not a directory: "@ + target@, true),
            },
    {
        match listing {
            Some(l) => {
                self.input = String::new();
                self.mode = AppMode::Normal;
                self.change_directory(target.as_str(), l.notes, l.bodies);
                let msg = cat("Switched to ", target.as_str());
                self.set_status(msg.as_str());
            },
            None => {
                let msg = cat("Not a directory: ", target.as_str());
                self.set_error(msg.as_str());
            },
        }
    }

    /// What the preview pane needs: blank with nothing highlighted (and the
    /// cached preview dropped), nothing when it already shows the
    /// highlighted document, else that document rendered.
    pub fn ensure_preview(&mut self) -> (r: PreviewNeed)
        requires
            old(self).wf(),
        ensures
            final(self).wf(),
            match old(self).selected_path_text() {
                None => r is Clear && *final(self) == (App { preview_cache: None, ..*old(self) }),
                Some(name) => *final(self) == *old(self) && if old(self).preview_cache matches Some(
                    c,
                ) && c.0@ == name {
                    r is Keep
                } else {
                    r matches PreviewNeed::Render { name: n, path } && n@ == name && path@ == join_path(
                        old(self).directory@,
                        name,
                    )
                },
            },
    {
        let name = match self.selected_rel_path() {
            Some(n) => n,
            None => {
                self.preview_cache = None;
                return PreviewNeed::Clear;
            },
        };
        if let Some(c) = &self.preview_cache {
            if c.0 == name {
                return PreviewNeed::Keep;
            }
        }
        let path = join(self.directory.as_str(), name.as_str());
        PreviewNeed::Render { name, path }
    }

    /// Show `text` as the preview of `name`.
    pub fn set_preview(&mut self, name: String, text: String)
        ensures
            final(self).preview_cache matches Some(c) && c.0 == name && c.1 == text,
            *final(self) == (App { preview_cache: final(self).preview_cache, ..*old(self) }),
    {
        self.preview_cache = Some((name, text));
    }
}

} // verus!
