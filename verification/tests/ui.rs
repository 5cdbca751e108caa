use scribe::app::{App, AppMode, Pending, StatusEntry};
use scribe::notes::{fmt_size, NoteEntry};
use scribe::app::{DirPickFocus, Focus};
use scribe::templates::Template;
use scribe::ui::{
    dir_picker_borders, list_border, preview_border, dir_picker_titles, empty_list_message, format_row, list_title, overlay_title, preview_title,
    shows_bottom_overlay, shows_preview, status_bar, template_row, Tone,
};

/// The row layout written with `format!` and `saturating_sub`, as a
/// reference for the verified one.
fn expected_row(name: &str, mtime: &str, size: u64, width: u16) -> (String, usize, String) {
    let meta = format!("  {mtime}  {:>6}", fmt_size(size));
    let total_w = width as usize;
    let meta_w = meta.chars().count();
    let max_name = total_w.saturating_sub(meta_w + 2);
    let shown = if name.chars().count() > max_name && max_name > 1 {
        let mut t: String = name.chars().take(max_name.saturating_sub(1)).collect();
        t.push('…');
        t
    } else {
        name.to_string()
    };
    let pad = total_w.saturating_sub(shown.chars().count()).saturating_sub(meta_w);
    (shown, pad, meta)
}

fn entry(p: &str, size: u64) -> NoteEntry {
    NoteEntry { rel_path: p.to_string(), mtime: Some(0), size }
}

#[test]
fn rows_fit_their_width() {
    let names = ["a.adoc", "projects/very-long-document-name.adoc", "日本語のノート.adoc", ""];
    let times = ["2024-05-06 07:08", "—"];
    for name in names {
        for mtime in times {
            for size in [0u64, 999_999, 5_000_000_000] {
                for width in [0u16, 1, 10, 20, 28, 30, 40, 80, 200] {
                    let row = format_row(&entry(name, size), mtime, width);
                    let (n, pad, meta) = expected_row(name, mtime, size, width);
                    assert_eq!(row.name, n);
                    assert_eq!(row.padding, pad);
                    assert_eq!(row.meta, meta);
                }
            }
        }
    }
    let row = format_row(&entry("abcdefghijklmnop.adoc", 10), "t", 20);
    assert_eq!(row.meta, "  t     10B");
    assert_eq!(row.name, "abcdef…");
    assert_eq!(row.padding, 2);
}

fn app() -> App {
    App::new("/n", false, Some("/work"), "ann", vec!["/n".to_string()])
}

#[test]
fn titles_by_mode() {
    let mut a = app();
    assert_eq!(list_title(&a), "Scribe — 0 doc(s) | dir: /n | target: notes | sort: name");
    a.recursive = true;
    a.target_cwd = true;
    assert_eq!(list_title(&a), "Scribe — 0 doc(s) | dir: /n | target: CWD | sort: name R");
    a.mode = AppMode::Create;
    assert_eq!(list_title(&a), "New [blank] in CWD (0 existing)");
    a.mode = AppMode::TemplatePick;
    a.target_cwd = false;
    assert_eq!(list_title(&a), "Choose a template (target: notes dir)");
    a.mode = AppMode::Search;
    assert_eq!(list_title(&a), "Search — 0 document(s)");
    a.search_query = "plan".to_string();
    assert_eq!(list_title(&a), "Search: 'plan' — 0 match(es)");
    a.mode = AppMode::Rename;
    assert_eq!(list_title(&a), "Renaming…");
    a.mode = AppMode::Help;
    assert_eq!(list_title(&a), "Help");
    a.mode = AppMode::DirPick;
    assert_eq!(list_title(&a), "Directory picker");
}

#[test]
fn empty_list_messages() {
    let mut a = app();
    assert_eq!(
        empty_list_message(&a),
        "No documents yet. Press 'i' to create one, or 't' to pick a template."
    );
    a.notes.push(entry("x.adoc", 1));
    assert_eq!(empty_list_message(&a), "(filtered list is empty)");
    a.search_query = "zz".to_string();
    assert_eq!(
        empty_list_message(&a),
        "No notes match 'zz'. Ctrl-N to create a new note with this title."
    );
}

#[test]
fn status_bar_text_and_tone() {
    let mut a = app();
    let (text, tone) = status_bar(&a);
    assert!(text.starts_with("j/k nav | o open"));
    assert_eq!(tone, Tone::Cyan);
    a.pending = Pending::Delete;
    assert_eq!(
        status_bar(&a),
        ("Press 'd' again to confirm deletion (soft-delete, `u` to undo)".to_string(), Tone::Red)
    );
    a.pending = Pending::Export;
    assert_eq!(status_bar(&a).1, Tone::Yellow);
    a.pending = Pending::Idle;
    a.mode = AppMode::Create;
    assert_eq!(status_bar(&a).1, Tone::Green);
    a.status_message = Some(StatusEntry { text: "saved".to_string(), is_error: false });
    assert_eq!(status_bar(&a), ("saved".to_string(), Tone::Green));
    a.status_message = Some(StatusEntry { text: "boom".to_string(), is_error: true });
    assert_eq!(status_bar(&a), ("boom".to_string(), Tone::Red));
}

#[test]
fn overlays_and_preview() {
    assert!(shows_bottom_overlay(AppMode::Create));
    assert!(shows_bottom_overlay(AppMode::Rename));
    assert!(shows_bottom_overlay(AppMode::Search));
    assert!(shows_bottom_overlay(AppMode::TemplatePick));
    assert!(!shows_bottom_overlay(AppMode::Normal));
    assert!(!shows_bottom_overlay(AppMode::Help));
    assert!(!shows_bottom_overlay(AppMode::DirPick));
    let mut a = app();
    assert!(!shows_preview(&a));
    a.preview_open = true;
    assert!(shows_preview(&a));
    a.mode = AppMode::Search;
    assert!(!shows_preview(&a));
}

#[test]
fn pane_titles() {
    assert_eq!(preview_title(Focus::List), "Preview (Tab to focus)");
    assert_eq!(preview_title(Focus::Preview), "Preview (Tab to return — j/k scroll, g/G top/bottom)");
    let (l, i) = dir_picker_titles(DirPickFocus::Recents);
    assert!(l.starts_with("Recent directories — "));
    assert_eq!(i, "New directory (Tab to focus)");
    let (l, i) = dir_picker_titles(DirPickFocus::NewPath);
    assert_eq!(l, "Recent directories (Tab to focus)");
    assert!(i.starts_with("New directory — "));
    let mut a = app();
    assert_eq!(overlay_title(&a, None), "");
    a.mode = AppMode::Create;
    assert_eq!(
        overlay_title(&a, None),
        "New title  [blank template, notes dir] — Enter to create, Tab toggles target, Esc cancels"
    );
    a.mode = AppMode::Rename;
    assert_eq!(overlay_title(&a, None), "Rename ? — Enter to confirm, Esc to cancel");
    a.rename_from = Some("/n/x.adoc".to_string());
    assert_eq!(overlay_title(&a, None), "Rename /n/x.adoc — Enter to confirm, Esc to cancel");
    a.mode = AppMode::TemplatePick;
    a.target_cwd = true;
    assert_eq!(
        overlay_title(&a, None),
        "Template (target: CWD) — Enter confirm, Esc cancel — user dir: (no config dir)"
    );
    assert_eq!(
        overlay_title(&a, Some("/h/.config/scribe/templates")),
        "Template (target: CWD) — Enter confirm, Esc cancel — user dir: /h/.config/scribe/templates"
    );
    a.mode = AppMode::Search;
    assert_eq!(overlay_title(&a, None), "Search — Enter open, Ctrl-N create, n/N persist, Esc clear");
}

#[test]
fn template_rows() {
    for t in Template::all() {
        assert_eq!(template_row(t), format!("{:<14}  {}", t.name(), t.description()));
    }
    assert_eq!(template_row(Template::Blank), "blank           Minimal AsciiDoc header");
}

#[test]
fn border_tones() {
    assert_eq!(list_border(Focus::List), Tone::Blue);
    assert_eq!(list_border(Focus::Preview), Tone::DarkGray);
    assert_eq!(preview_border(Focus::Preview), Tone::Cyan);
    assert_eq!(preview_border(Focus::List), Tone::DarkGray);
    assert_eq!(dir_picker_borders(DirPickFocus::Recents), (Tone::Cyan, Tone::DarkGray));
    assert_eq!(dir_picker_borders(DirPickFocus::NewPath), (Tone::DarkGray, Tone::Green));
}
