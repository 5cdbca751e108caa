use fuzzy_matcher::skim::SkimMatcherV2;
use fuzzy_matcher::FuzzyMatcher;
use scribe::app::{seed_recent_dirs, App, AppMode, DirPickFocus, Focus, Pending, STATUS_HISTORY};
use scribe::cli::ExportFormat;
use scribe::keys::{Effect, Key, KeyPress, Listing, PreviewNeed};
use scribe::notes::{NoteEntry, SortMode};
use scribe::paths::expand_path;
use scribe::templates::Template;

fn entry(p: &str, mtime: i128, size: u64) -> NoteEntry {
    NoteEntry { rel_path: p.to_string(), mtime: Some(mtime), size }
}

fn walked() -> Vec<NoteEntry> {
    vec![entry("c.adoc", 3, 300), entry("a.adoc", 1, 100), entry("b.adoc", 2, 200)]
}

fn bodies() -> Vec<(String, String)> {
    vec![
        ("a.adoc".to_string(), "= Alpha\nmeeting notes".to_string()),
        ("b.adoc".to_string(), "= Beta\nplans for the week".to_string()),
        ("c.adoc".to_string(), "= Gamma\nshopping".to_string()),
    ]
}

fn listing(names: &[&str]) -> Listing {
    Listing {
        notes: names.iter().map(|n| entry(n, 0, 1)).collect(),
        bodies: Vec::new(),
    }
}

fn key(c: char) -> KeyPress {
    KeyPress { key: Key::Char(c), ctrl: false }
}

fn special(k: Key) -> KeyPress {
    KeyPress { key: k, ctrl: false }
}

fn loaded() -> App {
    let mut a = App::new("/n", false, Some("/work"), "ann", vec!["/n".to_string(), "/h".to_string()]);
    a.refresh_notes(walked(), bodies());
    a
}

fn shown(a: &App) -> Vec<String> {
    a.filtered_indices.iter().map(|&i| a.notes[i].rel_path.clone()).collect()
}

fn status(a: &App) -> (String, bool) {
    let s = a.status_message.as_ref().expect("a status message");
    (s.text.clone(), s.is_error)
}

#[test]
fn fresh_interface() {
    let a = App::new("/n", true, None, "ann", Vec::new());
    assert_eq!(a.directory, "/n");
    assert_eq!(a.notes_root, "/n");
    assert!(a.cwd.is_none());
    assert!(a.show_all);
    assert_eq!(a.mode, AppMode::Normal);
    assert_eq!(a.pending, Pending::Idle);
    assert_eq!(a.sort, SortMode::NameAsc);
    assert_eq!(a.templates, vec![Template::Blank, Template::Readme, Template::Journal]);
    assert_eq!(a.selected, None);
    assert_eq!(a.list_len(), 0);
    assert_eq!(a.target_label(), "notes dir");
    assert_eq!(a.target_dir(), "/n");
}

#[test]
fn listing_and_moving() {
    let mut a = loaded();
    assert_eq!(shown(&a), vec!["a.adoc", "b.adoc", "c.adoc"]);
    assert_eq!(a.selected, Some(0));
    a.move_selection(1);
    assert_eq!(a.selected_rel_path().as_deref(), Some("b.adoc"));
    a.move_selection(10);
    assert_eq!(a.selected, Some(2));
    a.move_selection(-100);
    assert_eq!(a.selected, Some(0));
    a.move_selection(2);
    // the highlight follows the document through a reload in another order
    a.refresh_notes(vec![entry("c.adoc", 3, 300), entry("0.adoc", 0, 1)], Vec::new());
    assert_eq!(shown(&a), vec!["0.adoc", "c.adoc"]);
    assert_eq!(a.selected_rel_path().as_deref(), Some("c.adoc"));
    assert_eq!(a.selected_note().map(|n| n.size), Some(300));
    assert_eq!(a.selected_note_index(), Some(1));
}

#[test]
fn search_ranks_like_the_matcher() {
    let mut a = loaded();
    assert!(matches!(a.handle_key(key('/')), Effect::Nothing));
    assert_eq!(a.mode, AppMode::Search);
    for c in "pl".chars() {
        a.handle_key(key(c));
    }
    assert_eq!(a.search_query, "pl");
    let m = SkimMatcherV2::default();
    let mut expected: Vec<(i64, usize)> = Vec::new();
    for (i, n) in a.notes.iter().enumerate() {
        let name = m.fuzzy_match(&n.rel_path, "pl");
        let body = bodies().into_iter().find(|(k, _)| *k == n.rel_path).and_then(|(_, b)| m.fuzzy_match(&b, "pl"));
        let score = match (name, body) {
            (Some(x), Some(y)) => Some(x.max(y) + x / 2),
            (Some(x), None) => Some(x + 50),
            (None, Some(y)) => Some(y),
            (None, None) => None,
        };
        if let Some(s) = score {
            expected.push((s, i));
        }
    }
    expected.sort_by(|x, y| y.0.cmp(&x.0));
    let order: Vec<usize> = expected.into_iter().map(|(_, i)| i).collect();
    assert_eq!(a.filtered_indices, order);
    assert!(shown(&a).contains(&"b.adoc".to_string()));
    assert!(!shown(&a).contains(&"c.adoc".to_string()));
    match a.handle_key(special(Key::Enter)) {
        Effect::OpenEditor { path } => assert_eq!(path, format!("/n/{}", shown(&a)[0])),
        _ => panic!("expected the editor"),
    }
    assert_eq!(a.mode, AppMode::Normal);
    // `n` goes back to the search, `N` clears it
    a.handle_key(key('n'));
    assert_eq!(a.mode, AppMode::Search);
    a.handle_key(special(Key::Esc));
    assert_eq!(a.mode, AppMode::Normal);
    assert_eq!(a.search_query, "");
    assert_eq!(shown(&a).len(), 3);
    a.handle_key(key('n'));
    assert_eq!(status(&a), ("No previous search".to_string(), false));
}

#[test]
fn search_creates_from_query() {
    let mut a = loaded();
    a.handle_key(key('/'));
    for c in "zzz".chars() {
        a.handle_key(key(c));
    }
    assert_eq!(a.list_len(), 0);
    assert_eq!(a.selected, None);
    a.handle_key(special(Key::Backspace));
    assert_eq!(a.search_query, "zz");
    let eff = a.handle_key(KeyPress { key: Key::Char('n'), ctrl: true });
    let (dir, path) = match eff {
        Effect::Create { dir, path, contents, open_after } => {
            assert!(open_after);
            assert!(contents.starts_with("= zz\nann\n"));
            (dir, path)
        }
        _ => panic!("expected a new document"),
    };
    assert_eq!(dir, "/n");
    assert_eq!(path, "/n/zz.adoc");
    match a.finish_create(dir, path, true, Ok(listing(&["a.adoc", "zz.adoc"]))) {
        Effect::OpenEditor { path } => assert_eq!(path, "/n/zz.adoc"),
        _ => panic!("expected the editor"),
    }
    assert_eq!(a.search_query, "");
    assert_eq!(a.mode, AppMode::Normal);
    assert_eq!(shown(&a), vec!["a.adoc", "zz.adoc"]);
    assert_eq!(status(&a), ("Created /n/zz.adoc".to_string(), false));
}

#[test]
fn delete_and_undo() {
    let mut a = loaded();
    a.handle_key(key('j'));
    assert!(matches!(a.handle_key(key('d')), Effect::Nothing));
    assert_eq!(a.pending, Pending::Delete);
    assert_eq!(status_bar_tone_is_red(&a), true);
    let (path, trashed, rel) = match a.handle_key(key('d')) {
        Effect::SoftDelete { path, trashed, rel } => (path, trashed, rel),
        _ => panic!("expected a deletion"),
    };
    assert_eq!(a.pending, Pending::Idle);
    assert_eq!(path, "/n/b.adoc");
    assert_eq!(rel, "b.adoc");
    assert!(trashed.starts_with("/n/.scribe-trash/"));
    assert!(trashed.ends_with("__b.adoc"));
    assert!(trashed.len() > "/n/.scribe-trash/__b.adoc".len());
    a.finish_delete(path.clone(), trashed.clone(), rel.clone(), Ok(listing(&["a.adoc", "c.adoc"])));
    assert_eq!(shown(&a), vec!["a.adoc", "c.adoc"]);
    assert_eq!(status(&a), ("Deleted b.adoc — press 'u' to undo".to_string(), false));
    let (t, o, d) = match a.handle_key(key('u')) {
        Effect::Restore { trashed, original, display } => (trashed, original, display),
        _ => panic!("expected a restore"),
    };
    assert_eq!((t.as_str(), o.as_str(), d.as_str()), (trashed.as_str(), path.as_str(), "b.adoc"));
    a.finish_restore(d, Ok(listing(&["a.adoc", "b.adoc", "c.adoc"])));
    assert!(a.last_trash.is_none());
    assert_eq!(status(&a), ("Restored b.adoc".to_string(), false));
    a.handle_key(key('u'));
    assert_eq!(status(&a), ("Nothing to undo".to_string(), false));
    // a failed deletion is reported and nothing is remembered
    a.finish_delete("/n/x".to_string(), "/t".to_string(), "x".to_string(), Err("denied".to_string()));
    assert_eq!(status(&a), ("Delete failed: denied".to_string(), true));
    assert!(a.last_trash.is_none());
}

fn status_bar_tone_is_red(a: &App) -> bool {
    scribe::ui::status_bar(a).1 == scribe::ui::Tone::Red
}

#[test]
fn export_chord() {
    let mut a = loaded();
    a.handle_key(key('e'));
    assert_eq!(a.pending, Pending::Export);
    match a.handle_key(key('p')) {
        Effect::Export { path, format } => {
            assert_eq!(path, "/n/a.adoc");
            assert_eq!(format, ExportFormat::Pdf);
        }
        _ => panic!("expected an export"),
    }
    assert_eq!(a.pending, Pending::Idle);
    a.handle_key(key('e'));
    // any other key drops the chord and then acts as usual
    assert!(matches!(a.handle_key(key('j')), Effect::Nothing));
    assert_eq!(a.pending, Pending::Idle);
    assert_eq!(a.selected, Some(1));
    a.finish_export(ExportFormat::Html, Ok("/n/a.html".to_string()));
    assert_eq!(status(&a), ("Exported HTML -> /n/a.html".to_string(), false));
    a.finish_export(ExportFormat::Pdf, Err("no tool".to_string()));
    assert_eq!(status(&a), ("Export failed: no tool".to_string(), true));
    // a chord with nothing highlighted does nothing
    let mut empty = App::new("/n", false, None, "ann", Vec::new());
    empty.handle_key(key('e'));
    assert!(matches!(empty.handle_key(key('h')), Effect::Nothing));
    empty.handle_key(key('d'));
    assert!(matches!(empty.handle_key(key('d')), Effect::Nothing));
}

#[test]
fn create_from_prompt() {
    let mut a = loaded();
    a.handle_key(key('i'));
    assert_eq!(a.mode, AppMode::Create);
    assert!(matches!(a.handle_key(special(Key::Enter)), Effect::Nothing));
    for c in "Idea".chars() {
        a.handle_key(key(c));
    }
    let eff = a.handle_key(special(Key::Enter));
    assert_eq!(a.mode, AppMode::Normal);
    assert_eq!(a.input, "");
    let (dir, path) = match eff {
        Effect::Create { dir, path, contents, open_after } => {
            assert!(!open_after);
            assert!(contents.starts_with("= Idea\nann\n"));
            (dir, path)
        }
        _ => panic!("expected a new document"),
    };
    assert_eq!((dir.as_str(), path.as_str()), ("/n", "/n/Idea.adoc"));
    assert!(matches!(
        a.finish_create(dir, path, false, Ok(listing(&["Idea.adoc", "a.adoc"]))),
        Effect::Nothing
    ));
    assert_eq!(shown(&a), vec!["Idea.adoc", "a.adoc"]);
    assert_eq!(status(&a), ("Created /n/Idea.adoc".to_string(), false));
    // into the working directory: the listing is not taken in
    a.handle_key(key('I'));
    assert!(a.target_cwd);
    for c in "w.adoc".chars() {
        a.handle_key(key(c));
    }
    let (dir, path) = match a.handle_key(special(Key::Enter)) {
        Effect::Create { dir, path, .. } => (dir, path),
        _ => panic!("expected a new document"),
    };
    assert_eq!((dir.as_str(), path.as_str()), ("/work", "/work/w.adoc"));
    a.finish_create(dir, path, false, Ok(listing(&["zzz.adoc"])));
    assert_eq!(shown(&a), vec!["Idea.adoc", "a.adoc"]);
    // the same directory written another way is taken in
    a.finish_create("/n/".to_string(), "/n/q.adoc".to_string(), false, Ok(listing(&["q.adoc"])));
    assert_eq!(shown(&a), vec!["q.adoc"]);
    a.finish_create("/n".to_string(), "/n/r.adoc".to_string(), false, Err("exists".to_string()));
    assert_eq!(status(&a), ("Create failed: exists".to_string(), true));
}

#[test]
fn rename_flow() {
    let mut a = loaded();
    a.handle_key(key('j'));
    a.handle_key(key('r'));
    assert_eq!(a.mode, AppMode::Rename);
    assert_eq!(a.input, "b.adoc");
    assert_eq!(a.rename_from.as_deref(), Some("/n/b.adoc"));
    for _ in 0..5 {
        a.handle_key(special(Key::Backspace));
    }
    a.handle_key(key('x'));
    match a.handle_key(special(Key::Enter)) {
        Effect::Rename { from, to, new_rel } => {
            assert_eq!(from, "/n/b.adoc");
            assert_eq!(to, "/n/bx.adoc");
            assert_eq!(new_rel, "bx.adoc");
            a.finish_rename(new_rel, Ok(listing(&["a.adoc", "bx.adoc"])));
        }
        _ => panic!("expected a rename"),
    }
    assert_eq!(a.mode, AppMode::Normal);
    assert!(a.rename_from.is_none());
    assert_eq!(status(&a), ("Renamed to bx.adoc".to_string(), false));
    let mut empty = App::new("/n", false, None, "ann", Vec::new());
    empty.handle_key(key('r'));
    assert_eq!(status(&empty), ("Nothing to rename".to_string(), true));
}

#[test]
fn template_picker() {
    let mut a = loaded();
    a.handle_key(key('t'));
    assert_eq!(a.mode, AppMode::TemplatePick);
    a.handle_key(key('k'));
    assert_eq!(a.template_selected, Some(0));
    a.handle_key(key('j'));
    a.handle_key(key('j'));
    a.handle_key(key('j'));
    assert_eq!(a.template_selected, Some(2));
    a.handle_key(special(Key::Up));
    a.handle_key(special(Key::Enter));
    assert_eq!(a.chosen_template, Template::Readme);
    assert_eq!(a.mode, AppMode::Create);
    for c in "R".chars() {
        a.handle_key(key(c));
    }
    match a.handle_key(special(Key::Enter)) {
        Effect::Create { contents, .. } => assert!(contents.contains("== Installation")),
        _ => panic!("expected a new document"),
    }
}

#[test]
fn directory_picker() {
    let mut a = loaded();
    a.handle_key(key('c'));
    assert_eq!(a.mode, AppMode::DirPick);
    a.handle_key(key('j'));
    match a.handle_key(special(Key::Enter)) {
        Effect::CheckDir { target } => assert_eq!(target, "/h"),
        _ => panic!("expected a directory check"),
    }
    a.handle_key(special(Key::Tab));
    assert_eq!(a.dir_pick_focus, DirPickFocus::NewPath);
    a.handle_key(special(Key::Enter));
    assert_eq!(status(&a), ("Type a path or Tab back to the list".to_string(), true));
    for c in "~/x".chars() {
        a.handle_key(key(c));
    }
    match a.handle_key(special(Key::Enter)) {
        Effect::CheckDir { target } => assert_eq!(target, expand_path("~/x")),
        _ => panic!("expected a directory check"),
    }
    a.finish_dir_pick("/nope".to_string(), None);
    assert_eq!(status(&a), ("Not a directory: /nope".to_string(), true));
    assert_eq!(a.mode, AppMode::DirPick);
    a.finish_dir_pick("/m".to_string(), Some(listing(&["m.adoc"])));
    assert_eq!(a.mode, AppMode::Normal);
    assert_eq!(a.directory, "/m");
    assert_eq!(a.recent_dirs, vec!["/m", "/n", "/h"]);
    assert_eq!(shown(&a), vec!["m.adoc"]);
    assert_eq!(status(&a), ("Switched to /m".to_string(), false));
    // an empty picker reports that nothing is selected
    let mut b = App::new("/n", false, None, "ann", Vec::new());
    b.handle_key(key('c'));
    b.handle_key(special(Key::Enter));
    assert_eq!(status(&b), ("No directory selected".to_string(), true));
}

#[test]
fn recent_directories_are_bounded() {
    let mut a = loaded();
    for i in 0..20 {
        let d = format!("/d{i}");
        a.change_directory(&d, Vec::new(), Vec::new());
    }
    assert_eq!(a.recent_dirs.len(), 16);
    assert_eq!(a.recent_dirs[0], "/d19");
    a.change_directory("/d10", Vec::new(), Vec::new());
    assert_eq!(a.recent_dirs[0], "/d19");
    assert_eq!(a.directory, "/d10");
    assert_eq!(
        seed_recent_dirs(vec![
            Some("/n".to_string()),
            None,
            Some(String::new()),
            Some("/n".to_string()),
            Some("/h".to_string()),
        ]),
        vec!["/n", "/h"]
    );
}

#[test]
fn home_and_working_directory() {
    let mut a = loaded();
    match a.handle_key(key('H')) {
        Effect::ChangeDir { target } => {
            assert_eq!(target, "/work");
            a.finish_change_dir(target, listing(&["w.adoc"]));
        }
        _ => panic!("expected a change of directory"),
    }
    assert_eq!(a.directory, "/work");
    assert_eq!(a.recent_dirs[0], "/work");
    assert_eq!(status(&a), ("Switched to /work".to_string(), false));
    let mut b = App::new("/n", false, None, "ann", Vec::new());
    assert!(matches!(b.handle_key(key('H')), Effect::Nothing));
}

#[test]
fn sort_and_recursion() {
    let mut a = loaded();
    assert!(matches!(a.handle_key(key('s')), Effect::CycleSort));
    a.finish_cycle_sort(walked());
    assert_eq!(a.sort, SortMode::MtimeDesc);
    assert_eq!(shown(&a), vec!["c.adoc", "b.adoc", "a.adoc"]);
    assert_eq!(status(&a), ("Sort: modified ↓".to_string(), false));
    assert_eq!(a.selected_rel_path().as_deref(), Some("a.adoc"));
    assert!(matches!(a.handle_key(key('R')), Effect::ToggleRecursive));
    a.finish_toggle_recursive(listing(&["x/y.adoc"]));
    assert!(a.recursive);
    assert_eq!(status(&a), ("Recursive listing ON".to_string(), false));
    a.finish_toggle_recursive(listing(&["y.adoc"]));
    assert_eq!(status(&a), ("Recursive listing OFF".to_string(), false));
}

#[test]
fn status_history_and_dismissal() {
    let mut a = loaded();
    for i in 0..60 {
        a.set_status(&format!("m{i}"));
    }
    assert_eq!(a.status_log.len(), STATUS_HISTORY);
    assert_eq!(a.status_log[0].text, "m59");
    assert_eq!(a.status_log[49].text, "m10");
    a.set_error("bad");
    assert_eq!(status(&a), ("bad".to_string(), true));
    a.handle_key(special(Key::Esc));
    assert!(a.status_message.is_none());
    a.set_status("x");
    a.clear_status();
    assert!(a.status_message.is_none());
    assert_eq!(a.status_log[0].text, "x");
}

#[test]
fn help_and_target() {
    let mut a = loaded();
    a.handle_key(key('?'));
    assert_eq!(a.mode, AppMode::Help);
    a.handle_key(key('x'));
    assert_eq!(a.mode, AppMode::Help);
    a.handle_key(key('q'));
    assert_eq!(a.mode, AppMode::Normal);
    a.handle_key(special(Key::Tab));
    assert!(a.target_cwd);
    assert_eq!(status(&a), ("Target: CWD".to_string(), false));
    assert_eq!(a.target_dir(), "/work");
    a.handle_key(special(Key::BackTab));
    assert_eq!(status(&a), ("Target: notes dir".to_string(), false));
    assert!(matches!(a.handle_key(key('q')), Effect::Quit));
}

#[test]
fn preview_pane() {
    let mut a = loaded();
    a.handle_key(key('p'));
    assert!(a.preview_open);
    a.handle_key(special(Key::Tab));
    assert_eq!(a.focus, Focus::Preview);
    a.handle_key(key('j'));
    a.handle_key(special(Key::PageDown));
    assert_eq!(a.preview_scroll, 11);
    a.handle_key(key('G'));
    assert_eq!(a.preview_scroll, 32767);
    a.handle_key(key('g'));
    assert_eq!(a.preview_scroll, 0);
    assert_eq!(a.selected, Some(0));
    let (name, path) = match a.ensure_preview() {
        PreviewNeed::Render { name, path } => (name, path),
        _ => panic!("expected a render"),
    };
    assert_eq!((name.as_str(), path.as_str()), ("a.adoc", "/n/a.adoc"));
    a.set_preview(name, "text".to_string());
    assert!(matches!(a.ensure_preview(), PreviewNeed::Keep));
    a.finish_open();
    assert!(a.preview_cache.is_none());
    a.handle_key(key('p'));
    assert!(!a.preview_open);
    assert_eq!(a.focus, Focus::List);
    let mut b = App::new("/n", false, None, "ann", Vec::new());
    b.preview_cache = Some(("x".to_string(), "y".to_string()));
    assert!(matches!(b.ensure_preview(), PreviewNeed::Clear));
    assert!(b.preview_cache.is_none());
}

#[test]
fn search_moves_with_j_and_k() {
    let mut a = loaded();
    a.handle_key(key('/'));
    a.handle_key(key('a'));
    let before = a.search_query.clone();
    let n = a.list_len();
    assert!(n >= 2);
    a.handle_key(key('j'));
    assert_eq!(a.search_query, before);
    assert_eq!(a.selected, Some(1));
    a.handle_key(key('k'));
    a.handle_key(key('k'));
    assert_eq!(a.selected, Some(0));
    a.handle_key(special(Key::Down));
    assert_eq!(a.selected, Some(1));
}

#[test]
fn search_keeps_the_highlighted_document() {
    let mut a = loaded();
    a.handle_key(key('j'));
    assert_eq!(a.selected_rel_path().as_deref(), Some("b.adoc"));
    a.handle_key(key('/'));
    assert_eq!(a.selected_rel_path().as_deref(), Some("b.adoc"));
    a.handle_key(key('.'));
    assert_eq!(a.selected_rel_path().as_deref(), Some("b.adoc"));
    a.handle_key(special(Key::Backspace));
    assert_eq!(a.selected_rel_path().as_deref(), Some("b.adoc"));
}
