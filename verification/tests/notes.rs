use chrono::TimeZone;
use scribe::notes::{
    ensure_adoc_extension, epoch_parts, rename_blocked, restore_blocked, first_title, fmt_mtime, fmt_size, resolve_notes_dir,
    trashed_path, is_adoc_filename, list_notes, note_rel_path,
    resolve_notes_dir_with, sort_entries, strip_adoc_extension, trash_dir, trashed_path_with,
    walk_step, NoteEntry, SortMode, WalkStep,
};

fn float_size(n: u64) -> String {
    const KB: u64 = 1024;
    const MB: u64 = 1024 * KB;
    if n >= MB {
        format!("{:.1}M", n as f64 / MB as f64)
    } else if n >= KB {
        format!("{:.1}K", n as f64 / KB as f64)
    } else {
        format!("{n}B")
    }
}

#[test]
fn fmt_size_matches_float_formatting() {
    let mut samples: Vec<u64> = vec![
        0, 1, 512, 1023, 1024, 1025, 1280, 1536, 2047, 2048, 10239, 10240, 1048575, 1048576,
        1048577, 1572864, 1101004, 5_000_000, 123_456_789, u64::MAX, u64::MAX - 1,
        (1u64 << 53) - 1, 1u64 << 53, (1u64 << 53) + 1, (1u64 << 54) + 3, 9_007_199_254_740_993,
    ];
    let mut x: u64 = 0x9e37_79b9_7f4a_7c15;
    for _ in 0..20000 {
        x ^= x << 13;
        x ^= x >> 7;
        x ^= x << 17;
        samples.push(x >> (x % 60));
        samples.push(x % 4_000_000);
    }
    for k in 0..4096u64 {
        samples.push(1024 + k);
        samples.push(1048576 * 3 + k * 256);
    }
    for n in samples {
        assert_eq!(fmt_size(n), float_size(n), "size {n}");
    }
}

#[test]
fn fmt_size_examples() {
    assert_eq!(fmt_size(0), "0B");
    assert_eq!(fmt_size(1023), "1023B");
    assert_eq!(fmt_size(1024), "1.0K");
    assert_eq!(fmt_size(1280), "1.2K");
    assert_eq!(fmt_size(1536), "1.5K");
    assert_eq!(fmt_size(1048576), "1.0M");
}

#[test]
fn adoc_extension_handling() {
    assert!(is_adoc_filename("Plan.ADOC"));
    assert!(is_adoc_filename("a.asciidoc"));
    assert!(!is_adoc_filename("notes.txt"));
    assert_eq!(ensure_adoc_extension("Plan"), "Plan.adoc");
    assert_eq!(ensure_adoc_extension("Plan.adoc"), "Plan.adoc");
    assert_eq!(ensure_adoc_extension("Plan.AdOc"), "Plan.AdOc.adoc");
    assert_eq!(ensure_adoc_extension("x.asciidoc"), "x.asciidoc.adoc");
    for name in ["", "a", "b.ADOC", "c.asciidoc", "d.adoc", "日記"] {
        assert!(ensure_adoc_extension(name).ends_with(".adoc"));
    }
    assert_eq!(strip_adoc_extension("Plan.adoc"), "Plan");
    assert_eq!(strip_adoc_extension("Plan.asciidoc"), "Plan");
    assert_eq!(strip_adoc_extension("Plan.ADOC"), "Plan.ADOC");
    assert_eq!(strip_adoc_extension("日記.adoc"), "日記");
    let name = "Ünïcode title";
    assert_eq!(strip_adoc_extension(&ensure_adoc_extension(name)), name);
}

#[test]
fn sort_mode_cycles() {
    let mut m = SortMode::NameAsc;
    let labels: Vec<&str> = (0..4)
        .map(|_| {
            let l = m.label();
            m = m.next();
            l
        })
        .collect();
    assert_eq!(labels, vec!["name", "modified ↓", "modified ↑", "size ↓"]);
    assert_eq!(m, SortMode::NameAsc);
}

fn entry(p: &str, mtime: Option<i128>, size: u64) -> NoteEntry {
    NoteEntry { rel_path: p.to_string(), mtime, size }
}

fn paths(v: &[NoteEntry]) -> Vec<&str> {
    v.iter().map(|e| e.rel_path.as_str()).collect()
}

#[test]
fn sorting_is_stable_and_keyed() {
    let input = vec![
        entry("b.adoc", Some(5), 10),
        entry("a.adoc", None, 30),
        entry("c.adoc", Some(5), 10),
        entry("Z.adoc", Some(-3), 20),
        entry("é.adoc", Some(9), 10),
    ];
    let mut v = input.clone();
    sort_entries(&mut v, SortMode::NameAsc);
    assert_eq!(paths(&v), vec!["Z.adoc", "a.adoc", "b.adoc", "c.adoc", "é.adoc"]);
    let v = list_notes(input.clone(), SortMode::MtimeDesc);
    assert_eq!(paths(&v), vec!["é.adoc", "b.adoc", "c.adoc", "Z.adoc", "a.adoc"]);
    let v = list_notes(input.clone(), SortMode::MtimeAsc);
    assert_eq!(paths(&v), vec!["a.adoc", "Z.adoc", "b.adoc", "c.adoc", "é.adoc"]);
    let v = list_notes(input.clone(), SortMode::SizeDesc);
    assert_eq!(paths(&v), vec!["a.adoc", "Z.adoc", "b.adoc", "c.adoc", "é.adoc"]);
    // the same order as std's stable sort
    let mut w = input.clone();
    w.sort_by(|a, b| b.size.cmp(&a.size));
    assert_eq!(paths(&v), paths(&w));
}

#[test]
fn titles_from_file_heads() {
    assert_eq!(first_title("= My Doc\nbody"), Some("My Doc".to_string()));
    assert_eq!(first_title("\n\n  #  Heading  \r\nx"), Some("Heading".to_string()));
    assert_eq!(first_title("no title here\n==not\n"), None);
    assert_eq!(first_title(""), None);
    assert_eq!(first_title("=\tTab"), None);
    let mut head = String::new();
    for _ in 0..40 {
        head.push_str("line\n");
    }
    head.push_str("= Late\n");
    assert_eq!(first_title(&head), None);
    let mut head = String::new();
    for _ in 0..39 {
        head.push_str("line\n");
    }
    head.push_str("= Just in time");
    assert_eq!(first_title(&head), Some("Just in time".to_string()));
}

#[test]
fn trash_and_paths() {
    assert_eq!(trash_dir("/home/u/notes"), "/home/u/notes/.scribe-trash");
    assert_eq!(trash_dir("/home/u/notes/"), "/home/u/notes/.scribe-trash");
    assert_eq!(
        trashed_path_with("/n", "/n/projects/x.adoc", "20240101-120000-000"),
        "/n/.scribe-trash/20240101-120000-000__projects__x.adoc"
    );
    assert_eq!(
        trashed_path_with("/n", "/other/x.adoc", "T"),
        "/n/.scribe-trash/T____other__x.adoc"
    );
    assert_eq!(note_rel_path("/n/a/b.adoc", "/n"), "a/b.adoc");
    assert_eq!(note_rel_path("/elsewhere/b.adoc", "/n"), "/elsewhere/b.adoc");
}

#[test]
fn notes_dir_resolution() {
    assert_eq!(resolve_notes_dir_with(Some("/x"), Some("/y"), Some("/h")), "/x");
    assert_eq!(resolve_notes_dir_with(None, Some("/y"), Some("/h")), "/y");
    assert_eq!(resolve_notes_dir_with(None, Some(""), Some("/h")), "/h/notes");
    assert_eq!(resolve_notes_dir_with(None, None, None), "notes");
}

#[test]
fn walking_decisions() {
    assert_eq!(walk_step(".git", true, false, true, true), WalkStep::Skip);
    assert_eq!(walk_step("target", true, false, true, true), WalkStep::Skip);
    assert_eq!(walk_step("docs", true, false, true, true), WalkStep::Descend);
    assert_eq!(walk_step("docs", true, false, true, false), WalkStep::Skip);
    assert_eq!(walk_step("a.txt", false, true, true, false), WalkStep::Skip);
    assert_eq!(walk_step("a.txt", false, true, false, false), WalkStep::Keep);
    assert_eq!(walk_step("a.adoc", false, true, true, false), WalkStep::Keep);
    assert_eq!(walk_step("fifo", false, false, false, false), WalkStep::Skip);
    assert_eq!(walk_step(".hidden.adoc", false, true, true, false), WalkStep::Skip);
    assert_eq!(walk_step(".notes", true, false, false, true), WalkStep::Skip);
    // the flags only widen the listing
    assert_eq!(walk_step("a.txt", false, true, true, true), WalkStep::Skip);
    assert_eq!(walk_step("a.txt", false, true, false, true), WalkStep::Keep);
    assert_eq!(walk_step("docs", true, false, false, false), WalkStep::Skip);
    assert_eq!(walk_step("docs", true, false, false, true), WalkStep::Descend);
}

#[test]
fn modification_times() {
    assert_eq!(epoch_parts(0), (0, 0));
    assert_eq!(epoch_parts(1_500_000_000), (1, 500_000_000));
    assert_eq!(epoch_parts(-1), (-1, 999_999_999));
    assert_eq!(epoch_parts(-2_000_000_000), (-2, 0));
    for nanos in [0i128, 1_700_000_000_123_456_789, -86_400_000_000_000] {
        let (s, n) = epoch_parts(nanos);
        let expected = chrono::Local
            .timestamp_opt(s, n)
            .single()
            .map(|t| t.format("%Y-%m-%d %H:%M").to_string());
        assert_eq!(fmt_mtime(nanos), expected);
        assert_eq!(fmt_mtime(nanos).map(|t| t.len()), Some(16));
    }
}

#[test]
fn trashing_now() {
    let t = trashed_path("/n", "/n/sub/x.adoc");
    assert!(t.starts_with("/n/.scribe-trash/"));
    assert!(t.ends_with("__sub__x.adoc"));
    let stamp = &t["/n/.scribe-trash/".len()..t.len() - "__sub__x.adoc".len()];
    // YYYYmmdd-HHMMSS-nnnnnnnnn
    assert_eq!(stamp.len(), 25);
    assert_eq!(stamp.as_bytes()[8], b'-');
    assert_eq!(stamp.as_bytes()[15], b'-');
}

#[test]
fn notes_dir_from_home() {
    assert_eq!(resolve_notes_dir(Some("/x"), Some("/y")), "/x");
    assert_eq!(resolve_notes_dir(None, Some("/y")), "/y");
    let expected = dirs::home_dir()
        .and_then(|h| h.join("notes").to_str().map(|s| s.to_string()))
        .unwrap_or_else(|| "notes".to_string());
    assert_eq!(resolve_notes_dir(None, None), expected);
    assert_eq!(resolve_notes_dir(None, Some("")), expected);
}

#[test]
fn moves_never_overwrite() {
    assert_eq!(rename_blocked("/n/b.adoc", true), Some("destination exists: /n/b.adoc".to_string()));
    assert_eq!(rename_blocked("/n/b.adoc", false), None);
    assert_eq!(
        restore_blocked("/n/b.adoc", true),
        Some("cannot restore — file exists: /n/b.adoc".to_string())
    );
    assert_eq!(restore_blocked("/n/b.adoc", false), None);
}

#[test]
fn modification_time_shape() {
    for secs in [-62_135_510_400i128, 0, 1_700_000_000, 253_402_214_399] {
        let t = fmt_mtime(secs * 1_000_000_000).expect("a time in range");
        let b = t.as_bytes();
        assert_eq!(b.len(), 16, "{t}");
        for (i, c) in b.iter().enumerate() {
            match i {
                4 | 7 => assert_eq!(*c, b'-'),
                10 => assert_eq!(*c, b' '),
                13 => assert_eq!(*c, b':'),
                _ => assert!(c.is_ascii_digit(), "{t}"),
            }
        }
    }
}
