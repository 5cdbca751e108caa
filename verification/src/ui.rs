//! The words and layout choices of the screen: list rows, titles, the status
//! bar. Drawing them is left to the terminal front end.
use vstd::prelude::*;
use crate::app::{App, AppMode, DirPickFocus, Focus, Pending};
use crate::templates::Template;
use crate::cli::{pad_left, pad_left_chars};
use crate::notes::{fmt_size, size_text, sort_label, NoteEntry};
use crate::text::{chars_of, decimal, decimal_chars, push_all, string_of};

verus! {

/// One row of the document list: the name (shortened with `…` when it does
/// not fit), the blank between, and the time and size.
pub struct RowText {
    pub name: String,
    pub padding: usize,
    pub meta: String,
}

/// `a - b`, or 0 when `b` is larger.
pub open spec fn minus(a: int, b: int) -> nat {
    if a > b {
        (a - b) as nat
    } else {
        0
    }
}

pub open spec fn row_meta(mtime: Seq<char>, size: u64) -> Seq<char> {
    seq![' ', ' '] + mtime + seq![' ', ' '] + pad_left(size_text(size as nat), 6)
}

pub open spec fn row_name(name: Seq<char>, meta_len: nat, width: nat) -> Seq<char> {
    let max_name = minus(width as int, meta_len + 2int);
    if name.len() > max_name && max_name > 1 {
        name.take(max_name - 1).push('…')
    } else {
        name
    }
}

/// Lay out a document row `width` columns wide: the time and size stay
/// right-aligned, the name is cut to fit before them.
pub fn format_row(entry: &NoteEntry, mtime: &str, width: u16) -> (r: RowText)
    ensures
        r.meta@ == row_meta(mtime@, entry.size),
        r.name@ == row_name(entry.rel_path@, r.meta@.len(), width as nat),
        r.padding == minus(minus(width as int, r.name@.len() as int) as int, r.meta@.len() as int),
{
    let mut meta: Vec<char> = vec![' ', ' '];
    push_all(&mut meta, &chars_of(mtime));
    meta.push(' ');
    meta.push(' ');
    let size = chars_of(fmt_size(entry.size).as_str());
    push_all(&mut meta, &pad_left_chars(&size, 6));
    assert(meta@ =~= row_meta(mtime@, entry.size));
    let total_w = width as usize;
    let meta_w = meta.len();
    let max_name: usize = if meta_w < usize::MAX - 2 && total_w > meta_w + 2 {
        total_w - (meta_w + 2)
    } else {
        0
    };
    let name = chars_of(entry.rel_path.as_str());
    let shown: Vec<char> = if name.len() > max_name && max_name > 1 {
        let mut t = crate::text::prefix_upto(&name, max_name - 1);
        t.push('…');
        t
    } else {
        name
    };
    let rest: usize = if total_w > shown.len() {
        total_w - shown.len()
    } else {
        0
    };
    let padding: usize = if rest > meta_w {
        rest - meta_w
    } else {
        0
    };
    RowText { name: string_of(&shown), padding, meta: string_of(&meta) }
}

pub open spec fn target_hint(app: App) -> Seq<char> {
    if app.target_cwd {
        "CWD"@
    } else {
        "notes"@
    }
}

pub open spec fn target_words(app: App) -> Seq<char> {
    if app.target_cwd {
        "CWD"@
    } else {
        "notes dir"@
    }
}

/// The title of the document list, by mode.
pub open spec fn list_title_text(app: App) -> Seq<char> {
    match app.mode {
        AppMode::Normal => "Scribe — "@ + decimal(app.filtered_indices@.len()) + " doc(s) | dir: "@
            + app.directory@ + " | target: "@ + target_hint(app) + " | sort: "@ + sort_label(
            app.sort,
        ) + if app.recursive {
            " R"@
        } else {
            ""@
        },
        AppMode::Create => "New ["@ + app.chosen_template.name_text() + "] in "@ + target_words(app)
            + " ("@ + decimal(app.notes@.len()) + " existing)"@,
        AppMode::Rename => "Renaming…"@,
        AppMode::TemplatePick => "Choose a template (target: "@ + target_words(app) + ")"@,
        AppMode::Search => if app.search_query@.len() == 0 {
            "Search — "@ + decimal(app.notes@.len()) + " document(s)"@
        } else {
            "Search: '"@ + app.search_query@ + "' — "@ + decimal(app.filtered_indices@.len())
                + " match(es)"@
        },
        AppMode::Help => "Help"@,
        AppMode::DirPick => "Directory picker"@,
    }
}

fn number(n: usize) -> (r: Vec<char>)
    ensures
        r@ == decimal(n as nat),
{
    decimal_chars(n as u128)
}

fn append(v: &mut Vec<char>, s: &str)
    ensures
        final(v)@ == old(v)@ + s@,
{
    push_all(v, &chars_of(s));
}

pub fn list_title(app: &App) -> (r: String)
    ensures
        r@ == list_title_text(*app),
{
    let mut v: Vec<char> = Vec::new();
    match app.mode {
        AppMode::Normal => {
            append(&mut v, "Scribe — ");
            push_all(&mut v, &number(app.filtered_indices.len()));
            append(&mut v, " doc(s) | dir: ");
            append(&mut v, app.directory.as_str());
            append(&mut v, " | target: ");
            append(&mut v, if app.target_cwd { "CWD" } else { "notes" });
            append(&mut v, " | sort: ");
            append(&mut v, app.sort.label());
            append(&mut v, if app.recursive { " R" } else { "" });
        },
        AppMode::Create => {
            append(&mut v, "New [");
            append(&mut v, app.chosen_template.name());
            append(&mut v, "] in ");
            append(&mut v, app.target_label());
            append(&mut v, " (");
            push_all(&mut v, &number(app.notes.len()));
            append(&mut v, " existing)");
        },
        AppMode::Rename => append(&mut v, "Renaming…"),
        AppMode::TemplatePick => {
            append(&mut v, "Choose a template (target: ");
            append(&mut v, app.target_label());
            append(&mut v, ")");
        },
        AppMode::Search => {
            if app.search_query.as_str().is_empty() {
                append(&mut v, "Search — ");
                push_all(&mut v, &number(app.notes.len()));
                append(&mut v, " document(s)");
            } else {
                append(&mut v, "Search: '");
                append(&mut v, app.search_query.as_str());
                append(&mut v, "' — ");
                push_all(&mut v, &number(app.filtered_indices.len()));
                append(&mut v, " match(es)");
            }
        },
        AppMode::Help => append(&mut v, "Help"),
        AppMode::DirPick => append(&mut v, "Directory picker"),
    }
    proof {
        assert(v@ =~= list_title_text(*app));
    }
    string_of(&v)
}

/// What the list shows when nothing is in it.
pub open spec fn empty_list_text(app: App) -> Seq<char> {
    if app.search_query@.len() > 0 {
        "No notes match '"@ + app.search_query@ + "'. Ctrl-N to create a new note with this title."@
    } else if app.notes@.len() == 0 {
        "No documents yet. Press 'i' to create one, or 't' to pick a template."@
    } else {
        "(filtered list is empty)"@
    }
}

pub fn empty_list_message(app: &App) -> (r: String)
    ensures
        r@ == empty_list_text(*app),
{
    let mut v: Vec<char> = Vec::new();
    if !app.search_query.as_str().is_empty() {
        append(&mut v, "No notes match '");
        append(&mut v, app.search_query.as_str());
        append(&mut v, "'. Ctrl-N to create a new note with this title.");
    } else if app.notes.len() == 0 {
        append(&mut v, "No documents yet. Press 'i' to create one, or 't' to pick a template.");
    } else {
        append(&mut v, "(filtered list is empty)");
    }
    assert(v@ =~= empty_list_text(*app));
    string_of(&v)
}

/// The colours the status bar takes.
#[derive(Clone, Copy, Debug, PartialEq, Eq, Structural)]
pub enum Tone {
    Red,
    Yellow,
    Cyan,
    Green,
    Magenta,
    Blue,
    DarkGray,
}

/// The status bar's hint and colour when no message is shown, by mode.
pub open spec fn status_hint(app: App) -> (Seq<char>, Tone) {
    match app.mode {
        AppMode::Normal => match app.pending {
            Pending::Delete => ("Press 'd' again to confirm deletion (soft-delete, `u` to undo)"@, Tone::Red),
            Pending::Export => ("Export: 'h' = HTML, 'p' = PDF, any other key cancels"@, Tone::Yellow),
            Pending::Idle => (
                "j/k nav | o open | i new | r rename | t tpl | / search | Tab target | R recursive | s sort | c chdir | p preview | e export | dd delete | u undo | ? help | q quit"@,
                Tone::Cyan,
            ),
        },
        AppMode::Create => (
            "Type title (without .adoc) — Enter to create, Tab toggle target, Esc cancel"@,
            Tone::Green,
        ),
        AppMode::Rename => ("Type new path/name — Enter to confirm, Esc cancel"@, Tone::Magenta),
        AppMode::TemplatePick => ("j/k choose | Enter confirm | Tab toggle target | Esc cancel"@, Tone::Cyan),
        AppMode::Search => (
            "Type to filter | j/k navigate | Enter open | Ctrl-N create from query | Esc clear"@,
            Tone::Magenta,
        ),
        AppMode::Help => ("? or Esc to close help"@, Tone::Cyan),
        AppMode::DirPick => (
            match app.dir_pick_focus {
                DirPickFocus::Recents => "Recents: j/k navigate | Enter switch | Tab → input | Esc cancel"@,
                DirPickFocus::NewPath => "New path: type a directory | Enter switch | Tab → list | Esc cancel"@,
            },
            Tone::Cyan,
        ),
    }
}

/// The status bar: the current message, red when it is an error, or else
/// the mode's hint.
pub open spec fn status_bar_text(app: App) -> (Seq<char>, Tone) {
    match app.status_message {
        Some(s) => (s.text@, if s.is_error { Tone::Red } else { status_hint(app).1 }),
        None => status_hint(app),
    }
}

fn hint(app: &App) -> (r: (&'static str, Tone))
    ensures
        r.0@ == status_hint(*app).0,
        r.1 == status_hint(*app).1,
{
    match app.mode {
        AppMode::Normal => match app.pending {
            Pending::Delete => ("Press 'd' again to confirm deletion (soft-delete, `u` to undo)", Tone::Red),
            Pending::Export => ("Export: 'h' = HTML, 'p' = PDF, any other key cancels", Tone::Yellow),
            Pending::Idle => (
                "j/k nav | o open | i new | r rename | t tpl | / search | Tab target | R recursive | s sort | c chdir | p preview | e export | dd delete | u undo | ? help | q quit",
                Tone::Cyan,
            ),
        },
        AppMode::Create => (
            "Type title (without .adoc) — Enter to create, Tab toggle target, Esc cancel",
            Tone::Green,
        ),
        AppMode::Rename => ("Type new path/name — Enter to confirm, Esc cancel", Tone::Magenta),
        AppMode::TemplatePick => ("j/k choose | Enter confirm | Tab toggle target | Esc cancel", Tone::Cyan),
        AppMode::Search => (
            "Type to filter | j/k navigate | Enter open | Ctrl-N create from query | Esc clear",
            Tone::Magenta,
        ),
        AppMode::Help => ("? or Esc to close help", Tone::Cyan),
        AppMode::DirPick => (
            match app.dir_pick_focus {
                DirPickFocus::Recents => "Recents: j/k navigate | Enter switch | Tab → input | Esc cancel",
                DirPickFocus::NewPath => "New path: type a directory | Enter switch | Tab → list | Esc cancel",
            },
            Tone::Cyan,
        ),
    }
}

pub fn status_bar(app: &App) -> (r: (String, Tone))
    ensures
        r.0@ == status_bar_text(*app).0,
        r.1 == status_bar_text(*app).1,
{
    let (text, tone) = hint(app);
    match &app.status_message {
        Some(s) => (s.text.clone(), if s.is_error { Tone::Red } else { tone }),
        None => (string_of(&chars_of(text)), tone),
    }
}

/// The input box under the list is shown while typing a title, a new name
/// or a search, and in the template picker.
pub fn shows_bottom_overlay(mode: AppMode) -> (r: bool)
    ensures
        r == (mode == AppMode::Create || mode == AppMode::Rename || mode == AppMode::Search || mode
            == AppMode::TemplatePick),
{
    match mode {
        AppMode::Create | AppMode::Rename | AppMode::Search | AppMode::TemplatePick => true,
        _ => false,
    }
}

/// The preview pane is shown beside the list when it is open and the
/// interface is in normal mode.
pub fn shows_preview(app: &App) -> (r: bool)
    ensures
        r == (app.preview_open && app.mode == AppMode::Normal),
{
    app.preview_open && app.mode == AppMode::Normal
}

/// The preview pane's title: how to leave it when it has the focus, how to
/// give it the focus when it has not.
pub fn preview_title(focus: Focus) -> (r: &'static str)
    ensures
        r@ == if focus == Focus::Preview {
            "Preview (Tab to return — j/k scroll, g/G top/bottom)"@
        } else {
            "Preview (Tab to focus)"@
        },
{
    match focus {
        Focus::Preview => "Preview (Tab to return — j/k scroll, g/G top/bottom)",
        Focus::List => "Preview (Tab to focus)",
    }
}

/// The title of the input box under the list, by mode (empty where there
/// is no box); the template picker's names the user template directory,
/// `user_dir`, where one is known.
pub open spec fn overlay_title_text(app: App, user_dir: Option<Seq<char>>) -> Seq<char> {
    match app.mode {
        AppMode::Create => "New title  ["@ + app.chosen_template.name_text() + " template, "@
            + target_words(app) + "] — Enter to create, Tab toggles target, Esc cancels"@,
        AppMode::Rename => "Rename "@ + match app.rename_from {
            Some(p) => p@,
            None => "?"@,
        } + " — Enter to confirm, Esc to cancel"@,
        AppMode::Search => "Search — Enter open, Ctrl-N create, n/N persist, Esc clear"@,
        AppMode::TemplatePick => "Template (target: "@ + target_words(app) + ") — Enter confirm, Esc cancel — user dir: "@
            + match user_dir {
            Some(d) => d,
            None => "(no config dir)"@,
        },
        _ => Seq::empty(),
    }
}

pub fn overlay_title(app: &App, user_dir: Option<&str>) -> (r: String)
    ensures
        r@ == overlay_title_text(
            *app,
            match user_dir {
                Some(d) => Some(d@),
                None => None,
            },
        ),
{
    let mut v: Vec<char> = Vec::new();
    match app.mode {
        AppMode::Create => {
            append(&mut v, "New title  [");
            append(&mut v, app.chosen_template.name());
            append(&mut v, " template, ");
            append(&mut v, app.target_label());
            append(&mut v, "] — Enter to create, Tab toggles target, Esc cancels");
        },
        AppMode::Rename => {
            append(&mut v, "Rename ");
            match &app.rename_from {
                Some(p) => append(&mut v, p.as_str()),
                None => append(&mut v, "?"),
            }
            append(&mut v, " — Enter to confirm, Esc to cancel");
        },
        AppMode::Search => append(&mut v, "Search — Enter open, Ctrl-N create, n/N persist, Esc clear"),
        AppMode::TemplatePick => {
            append(&mut v, "Template (target: ");
            append(&mut v, app.target_label());
            append(&mut v, ") — Enter confirm, Esc cancel — user dir: ");
            match user_dir {
                Some(d) => append(&mut v, d),
                None => append(&mut v, "(no config dir)"),
            }
        },
        _ => {},
    }
    assert(v@ =~= overlay_title_text(
        *app,
        match user_dir {
            Some(d) => Some(d@),
            None => None,
        },
    ));
    string_of(&v)
}

/// `s` left-aligned in a field `width` characters wide (`{:<width}`).
pub open spec fn pad_right(s: Seq<char>, width: nat) -> Seq<char> {
    if s.len() >= width {
        s
    } else {
        s + Seq::new((width - s.len()) as nat, |i: int| ' ')
    }
}

/// One line of the template picker: the name in fourteen columns, then the
/// description.
pub fn template_row(t: Template) -> (r: String)
    ensures
        r@ == pad_right(t.name_text(), 14) + seq![' ', ' '] + t.description_text(),
{
    let mut v = chars_of(t.name());
    let ghost name = v@;
    while v.len() < 14
        invariant
            v@.len() >= name.len(),
            v@.len() <= 14 || v@.len() == name.len(),
            v@ == name + Seq::new((v@.len() - name.len()) as nat, |i: int| ' '),
        decreases 14 - v.len(),
    {
        v.push(' ');
        assert(v@ =~= name + Seq::new((v@.len() - name.len()) as nat, |i: int| ' '));
    }
    proof {
        if name.len() >= 14 {
            assert(v@ =~= name);
        }
        assert(v@ =~= pad_right(name, 14));
    }
    append(&mut v, "  ");
    append(&mut v, t.description());
    proof {
        reveal_strlit("  ");
    }
    string_of(&v)
}

/// The titles of the directory picker's list and input box: the one with
/// the focus says what its keys do, the other how to reach it.
pub fn dir_picker_titles(focus: DirPickFocus) -> (r: (&'static str, &'static str))
    ensures
        r.0@ == if focus == DirPickFocus::Recents {
            "Recent directories — j/k navigate, Enter switch, Tab → input, Esc cancel"@
        } else {
            "Recent directories (Tab to focus)"@
        },
        r.1@ == if focus == DirPickFocus::NewPath {
            "New directory — type a path, Enter switch, Tab → list, Esc cancel"@
        } else {
            "New directory (Tab to focus)"@
        },
{
    match focus {
        DirPickFocus::Recents => (
            "Recent directories — j/k navigate, Enter switch, Tab → input, Esc cancel",
            "New directory (Tab to focus)",
        ),
        DirPickFocus::NewPath => (
            "Recent directories (Tab to focus)",
            "New directory — type a path, Enter switch, Tab → list, Esc cancel",
        ),
    }
}

/// The border of the document list: blue while it has the focus, dark
/// grey while the preview has it.
pub fn list_border(focus: Focus) -> (r: Tone)
    ensures
        r == if focus == Focus::List { Tone::Blue } else { Tone::DarkGray },
{
    match focus {
        Focus::List => Tone::Blue,
        Focus::Preview => Tone::DarkGray,
    }
}

/// The border of the preview pane: cyan while it has the focus, dark grey
/// otherwise.
pub fn preview_border(focus: Focus) -> (r: Tone)
    ensures
        r == if focus == Focus::Preview { Tone::Cyan } else { Tone::DarkGray },
{
    match focus {
        Focus::Preview => Tone::Cyan,
        Focus::List => Tone::DarkGray,
    }
}

/// The borders of the directory picker's list and input box: the one with
/// the focus is cyan (the list) or green (the box), the other dark grey.
pub fn dir_picker_borders(focus: DirPickFocus) -> (r: (Tone, Tone))
    ensures
        r == if focus == DirPickFocus::Recents {
            (Tone::Cyan, Tone::DarkGray)
        } else {
            (Tone::DarkGray, Tone::Green)
        },
{
    match focus {
        DirPickFocus::Recents => (Tone::Cyan, Tone::DarkGray),
        DirPickFocus::NewPath => (Tone::DarkGray, Tone::Green),
    }
}

} // verus!
