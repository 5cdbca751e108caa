use scribe::cli::{
    command_for, document_not_found, export_fallback_path, list_line, no_documents_message, parse_sort, plan_new, Cli,
    Command, ExportFormat,
};
use scribe::notes::{fmt_size, SortMode};

fn cli() -> Cli {
    Cli {
        dir: None,
        here: false,
        all: false,
        new: None,
        template: "blank".to_string(),
        export: None,
        format: ExportFormat::Html,
        output: None,
        list: false,
        sort: "name".to_string(),
        recursive: false,
    }
}

#[test]
fn sort_names() {
    assert_eq!(parse_sort("name"), SortMode::NameAsc);
    assert_eq!(parse_sort("MTime"), SortMode::MtimeDesc);
    assert_eq!(parse_sort("modified"), SortMode::MtimeDesc);
    assert_eq!(parse_sort("mtime-desc"), SortMode::MtimeDesc);
    assert_eq!(parse_sort("mtime-asc"), SortMode::MtimeAsc);
    assert_eq!(parse_sort("OLDEST"), SortMode::MtimeAsc);
    assert_eq!(parse_sort("size"), SortMode::SizeDesc);
    assert_eq!(parse_sort("sizes"), SortMode::NameAsc);
    assert_eq!(parse_sort(""), SortMode::NameAsc);
}

#[test]
fn export_format_words() {
    assert_eq!(ExportFormat::Html.as_str(), "html");
    assert_eq!(ExportFormat::Pdf.as_str(), "pdf");
}

#[test]
fn command_precedence() {
    let mut c = cli();
    assert!(matches!(command_for(&c), Command::Tui { show_all: false }));
    c.all = true;
    assert!(matches!(command_for(&c), Command::Tui { show_all: true }));
    c.export = Some("plan".to_string());
    c.format = ExportFormat::Pdf;
    c.output = Some("/tmp/p.pdf".to_string());
    match command_for(&c) {
        Command::Export { file, format, output } => {
            assert_eq!(file, "plan");
            assert_eq!(format, ExportFormat::Pdf);
            assert_eq!(output.as_deref(), Some("/tmp/p.pdf"));
        }
        _ => panic!("expected an export"),
    }
    c.new = Some("Idea".to_string());
    c.template = "journal".to_string();
    match command_for(&c) {
        Command::New { title, template } => {
            assert_eq!(title, "Idea");
            assert_eq!(template, "journal");
        }
        _ => panic!("expected a new document"),
    }
    c.list = true;
    c.sort = "Size".to_string();
    c.recursive = true;
    match command_for(&c) {
        Command::List { only_adoc, recursive, sort } => {
            assert!(!only_adoc);
            assert!(recursive);
            assert_eq!(sort, SortMode::SizeDesc);
        }
        _ => panic!("expected a listing"),
    }
}

#[test]
fn listing_lines() {
    for (size, mtime, rel) in [
        (0u64, "2024-05-06 07:08", "a.adoc"),
        (1536, "—", "sub/b.adoc"),
        (123_456_789, "2001-01-01 00:00", "日記.adoc"),
        (10_000_000_000, "x", ""),
    ] {
        let expected = format!("{:>7}  {}  {}", fmt_size(size), mtime, rel);
        assert_eq!(list_line(size, mtime, rel), expected);
    }
    assert_eq!(list_line(5, "t", "n.adoc"), "     5B  t  n.adoc");
    assert_eq!(no_documents_message("/home/u/notes"), "(no documents in /home/u/notes)");
}

#[test]
fn export_fallback() {
    assert_eq!(export_fallback_path("/n", "plan"), "/n/plan.adoc");
    assert_eq!(export_fallback_path("/n/", "plan.adoc"), "/n/plan.adoc");
    assert_eq!(export_fallback_path("/n", "/abs/plan"), "/abs/plan.adoc");
}

#[test]
fn new_document_plans() {
    let plan = plan_new("/n", "Weekly.adoc", "readme", "ann").ok().unwrap();
    assert_eq!(plan.path, "/n/Weekly.adoc");
    assert!(plan.contents.starts_with("= Weekly\nann\n"));
    let plan = plan_new("/n", "Idea", "", "bo").ok().unwrap();
    assert_eq!(plan.path, "/n/Idea.adoc");
    assert!(plan.contents.starts_with("= Idea\nbo\n"));
    match plan_new("/n", "Idea", "memo", "bo") {
        Err(e) => assert_eq!(e, "unknown template: memo"),
        Ok(_) => panic!("memo accepted"),
    }
}

#[test]
fn missing_document() {
    assert_eq!(document_not_found("/n/plan.adoc"), "document not found: /n/plan.adoc");
}
