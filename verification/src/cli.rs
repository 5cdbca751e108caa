//! The command line: its options, and what a run of the program does with them.
use vstd::prelude::*;
use crate::notes::{ensure_adoc_extension, ensured_adoc, fmt_size, size_text, SortMode};
use crate::paths::{join_chars, join_path};
use crate::text::{chars_of, lower, lower_chars, push_all, string_of};

verus! {

/// Output format for `--export`.
#[derive(Clone, Copy, Debug, PartialEq, Eq, Structural)]
pub enum ExportFormat {
    Html,
    Pdf,
}

impl ExportFormat {
    pub fn as_str(self) -> (r: &'static str)
        ensures
            r@ == match self {
                ExportFormat::Html => "html"@,
                ExportFormat::Pdf => "pdf"@,
            },
    {
        match self {
            ExportFormat::Html => "html",
            ExportFormat::Pdf => "pdf",
        }
    }
}

/// The parsed command line.
pub struct Cli {
    /// Directory where .adoc files live (overrides $SCRIBE_DIR, default ~/notes).
    pub dir: Option<String>,
    /// Use the current working directory (shorthand for --dir .).
    pub here: bool,
    /// Show all files in the directory, not just .adoc files.
    pub all: bool,
    /// Create a new document with the given title (no TUI).
    pub new: Option<String>,
    /// Template to use with --new (blank, readme, journal).
    pub template: String,
    /// Export the given document and exit.
    pub export: Option<String>,
    /// Output format for --export.
    pub format: ExportFormat,
    /// Optional output path for --export (defaults next to source).
    pub output: Option<String>,
    /// List documents and exit.
    pub list: bool,
    /// How to sort the listing (name, mtime, mtime-asc, size).
    pub sort: String,
    /// List documents in subdirectories too.
    pub recursive: bool,
}

/// The sort mode that a `--sort` value names, matched without regard to
/// ASCII case; anything unrecognised sorts by name.
pub open spec fn sort_named(s: Seq<char>) -> SortMode {
    let n = lower(s);
    if n == "mtime"@ || n == "modified"@ || n == "mtime-desc"@ {
        SortMode::MtimeDesc
    } else if n == "mtime-asc"@ || n == "oldest"@ {
        SortMode::MtimeAsc
    } else if n == "size"@ {
        SortMode::SizeDesc
    } else {
        SortMode::NameAsc
    }
}

fn same(a: &Vec<char>, b: &str) -> (r: bool)
    ensures
        r == (a@ == b@),
{
    let bv = chars_of(b);
    if a.len() != bv.len() {
        return false;
    }
    let mut i: usize = 0;
    while i < a.len()
        invariant
            a.len() == bv.len(),
            bv@ == b@,
            i <= a.len(),
            forall|j: int| 0 <= j < i ==> a@[j] == bv@[j],
        decreases a.len() - i,
    {
        if a[i] != bv[i] {
            return false;
        }
        i += 1;
    }
    assert(a@ =~= bv@);
    true
}

pub fn parse_sort(s: &str) -> (r: SortMode)
    ensures
        r == sort_named(s@),
{
    let n = lower_chars(&chars_of(s));
    if same(&n, "mtime") || same(&n, "modified") || same(&n, "mtime-desc") {
        SortMode::MtimeDesc
    } else if same(&n, "mtime-asc") || same(&n, "oldest") {
        SortMode::MtimeAsc
    } else if same(&n, "size") {
        SortMode::SizeDesc
    } else {
        SortMode::NameAsc
    }
}

/// What one run of the program does.
pub enum Command {
    /// Print the listing and exit.
    List { only_adoc: bool, recursive: bool, sort: SortMode },
    /// Create a document titled `title` from the template named `template`.
    New { title: String, template: String },
    /// Export `file` to `format`, to `output` if given.
    Export { file: String, format: ExportFormat, output: Option<String> },
    /// Run the terminal interface.
    Tui { show_all: bool },
}

/// `--list` wins over `--new`, which wins over `--export`; with none of them
/// the terminal interface runs.
pub fn command_for(cli: &Cli) -> (r: Command)
    ensures
        cli.list ==> r == (Command::List {
            only_adoc: !cli.all,
            recursive: cli.recursive,
            sort: sort_named(cli.sort@),
        }),
        !cli.list && cli.new is Some ==> (r matches Command::New { title, template }
            && title@ == cli.new->0@ && template@ == cli.template@),
        !cli.list && cli.new is None && cli.export is Some ==> (r matches Command::Export {
            file,
            format,
            output,
        } && file@ == cli.export->0@ && format == cli.format && match output {
            Some(o) => cli.output is Some && o@ == cli.output->0@,
            None => cli.output is None,
        }),
        !cli.list && cli.new is None && cli.export is None ==> r == (Command::Tui {
            show_all: cli.all,
        }),
{
    if cli.list {
        return Command::List {
            only_adoc: !cli.all,
            recursive: cli.recursive,
            sort: parse_sort(cli.sort.as_str()),
        };
    }
    if let Some(title) = &cli.new {
        return Command::New {
            title: string_of(&chars_of(title.as_str())),
            template: string_of(&chars_of(cli.template.as_str())),
        };
    }
    if let Some(file) = &cli.export {
        let output = match &cli.output {
            Some(o) => Some(string_of(&chars_of(o.as_str()))),
            None => None,
        };
        return Command::Export {
            file: string_of(&chars_of(file.as_str())),
            format: cli.format,
            output,
        };
    }
    Command::Tui { show_all: cli.all }
}

/// `s` right-aligned in a field `width` characters wide (`{:>width}`).
pub open spec fn pad_left(s: Seq<char>, width: nat) -> Seq<char> {
    if s.len() >= width {
        s
    } else {
        Seq::new((width - s.len()) as nat, |i: int| ' ') + s
    }
}

pub fn pad_left_chars(s: &Vec<char>, width: usize) -> (out: Vec<char>)
    ensures
        out@ == pad_left(s@, width as nat),
{
    let mut out: Vec<char> = Vec::new();
    if s.len() < width {
        let n = width - s.len();
        let mut i: usize = 0;
        while i < n
            invariant
                i <= n,
                out@ == Seq::new(i as nat, |k: int| ' '),
            decreases n - i,
        {
            out.push(' ');
            i += 1;
            assert(out@ =~= Seq::new(i as nat, |k: int| ' '));
        }
    }
    push_all(&mut out, s);
    out
}

/// One line of `--list` output: the size right-aligned in seven columns, the
/// modification time, then the path, two spaces apart.
pub open spec fn list_line_text(size: Seq<char>, mtime: Seq<char>, rel_path: Seq<char>) -> Seq<char> {
    pad_left(size, 7) + seq![' ', ' '] + mtime + seq![' ', ' '] + rel_path
}

pub fn list_line(size: u64, mtime: &str, rel_path: &str) -> (r: String)
    ensures
        r@ == list_line_text(size_text(size as nat), mtime@, rel_path@),
{
    let size_chars = chars_of(fmt_size(size).as_str());
    let mut out = pad_left_chars(&size_chars, 7);
    let gap = vec![' ', ' '];
    assert(gap@ =~= seq![' ', ' ']);
    push_all(&mut out, &gap);
    push_all(&mut out, &chars_of(mtime));
    push_all(&mut out, &gap);
    push_all(&mut out, &chars_of(rel_path));
    string_of(&out)
}

/// Where `--export FILE` looks when `FILE` names no existing file: the notes
/// directory, with the extension added when missing.
pub fn export_fallback_path(directory: &str, file: &str) -> (r: String)
    ensures
        r@ == join_path(directory@, ensured_adoc(file@)),
{
    let name = ensure_adoc_extension(file);
    string_of(&join_chars(&chars_of(directory), &chars_of(name.as_str())))
}


/// A document to create: where, and what goes in it.
pub struct NewNote {
    pub path: String,
    pub contents: String,
}

/// Plan `--new TITLE --template NAME` in `directory`: the template must
/// exist; the file is the title with the extension added when missing, in
/// `directory`; its text is the template filled with the title (extension
/// stripped) and `author`, dated today.
pub fn plan_new(directory: &str, title: &str, template_name: &str, author: &str) -> (r: Result<NewNote, String>)
    ensures
        match crate::templates::template_named(template_name@) {
            Some(t) => r matches Ok(n) && n.path@ == join_path(directory@, ensured_adoc(title@))
                && exists|date: Seq<char>| crate::templates::is_date_text(date) &&
                n.contents@ == crate::templates::filled(
                    t.text(),
                    crate::notes::stripped_adoc(title@),
                    author@,
                    date,
                ),
            None => r matches Err(msg) && msg@ == "unknown template: "@ + template_name@,
        },
{
    let tpl = match crate::templates::Template::from_name(template_name) {
        Some(t) => t,
        None => return Err(crate::text::cat("unknown template: ", template_name)),
    };
    let filename = ensure_adoc_extension(title);
    let bare = crate::notes::strip_adoc_extension(title);
    let path = string_of(&join_chars(&chars_of(directory), &chars_of(filename.as_str())));
    let contents = tpl.render(bare, author);
    Ok(NewNote { path, contents })
}

/// What `--list` prints when there is nothing to list.
pub fn no_documents_message(directory: &str) -> (r: String)
    ensures
        r@ == "(no documents in "@ + directory@ + ")"@,
{
    let a = crate::text::cat("(no documents in ", directory);
    crate::text::cat(a.as_str(), ")")
}

/// The error of `--export` when the document exists neither as given nor
/// in the notes directory.
pub fn document_not_found(path: &str) -> (r: String)
    ensures
        r@ == "document not found: "@ + path@,
{
    crate::text::cat("document not found: ", path)
}

} // verus!
