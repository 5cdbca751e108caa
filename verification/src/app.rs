//! The state of the terminal interface, and every decision it takes on a key.
//!
//! The interface itself (drawing, the terminal, files, editors, converters)
//! stays outside the library: a key press goes in as a [`KeyPress`], comes
//! out as an [`Effect`] for the caller to carry out, and what the effect
//! produced comes back through one of the `finish_*` methods.
use vstd::prelude::*;
use crate::notes::{list_notes, NoteEntry, SortMode};
use crate::templates::Template;
use crate::text::{cat, chars_of, string_of};

verus! {

/// What the interface is doing.
#[derive(Clone, Copy, Debug, PartialEq, Eq, Structural)]
pub enum AppMode {
    Normal,
    Create,
    Rename,
    TemplatePick,
    Search,
    Help,
    DirPick,
}

/// Pending multi-key chord (e.g. `dd`, `eh`, `ep`).
#[derive(Clone, Copy, Debug, PartialEq, Eq, Structural)]
pub enum Pending {
    /// No chord in progress.
    Idle,
    Delete,
    Export,
}

/// Which pane has focus when both list + preview are visible.
#[derive(Clone, Copy, Debug, PartialEq, Eq, Structural)]
pub enum Focus {
    List,
    Preview,
}

/// Which sub-pane has focus inside the directory-picker overlay.
#[derive(Clone, Copy, Debug, PartialEq, Eq, Structural)]
pub enum DirPickFocus {
    Recents,
    NewPath,
}

/// One status message.
#[derive(Debug)]
pub struct StatusEntry {
    pub text: String,
    pub is_error: bool,
}

impl StatusEntry {
    pub fn duplicate(&self) -> (r: StatusEntry)
        ensures
            r == *self,
    {
        StatusEntry { text: self.text.clone(), is_error: self.is_error }
    }
}

/// Most recent soft-deleted note, kept so `u` can undo.
#[derive(Debug)]
pub struct TrashRecord {
    pub trashed_path: String,
    pub original_path: String,
    pub display_name: String,
}

impl TrashRecord {
    pub fn duplicate(&self) -> (r: TrashRecord)
        ensures
            r == *self,
    {
        TrashRecord {
            trashed_path: self.trashed_path.clone(),
            original_path: self.original_path.clone(),
            display_name: self.display_name.clone(),
        }
    }
}

/// How many status messages the history keeps.
pub const STATUS_HISTORY: usize = 50;

/// How many directories the picker remembers.
pub const RECENT_DIRS: usize = 16;

pub struct App {
    /// Current root directory whose contents are listed.
    pub directory: String,
    /// The directory the interface started in.
    pub notes_root: String,
    /// The process's working directory, the other place new documents can
    /// go, when it is known and valid UTF-8.
    pub cwd: Option<String>,
    /// Who new documents are by (`$USER` or `$USERNAME`).
    pub author: String,
    /// Recent directories, shown by the directory picker.
    pub recent_dirs: Vec<String>,
    pub recent_selected: Option<usize>,
    pub notes: Vec<NoteEntry>,
    /// The head of each document's text, by relative path, for searching:
    /// one pair per listed document, looked up by the first pair whose path
    /// matches (see [`body_text`]).
    pub body_index: Vec<(String, String)>,
    /// Positions in `notes` of the documents shown, in the order shown.
    pub filtered_indices: Vec<usize>,
    /// Position in `filtered_indices` of the highlighted document.
    pub selected: Option<usize>,
    pub input: String,
    pub mode: AppMode,
    pub pending: Pending,
    pub search_query: String,
    pub show_all: bool,
    pub recursive: bool,
    pub sort: SortMode,
    pub preview_open: bool,
    pub preview_cache: Option<(String, String)>,
    pub preview_scroll: u16,
    pub focus: Focus,
    /// History of status messages (most recent first).
    pub status_log: Vec<StatusEntry>,
    /// Currently displayed status, sticky until dismissed.
    pub status_message: Option<StatusEntry>,
    pub template_selected: Option<usize>,
    pub templates: Vec<Template>,
    pub chosen_template: Template,
    /// Last soft-deleted note (for `u` to restore).
    pub last_trash: Option<TrashRecord>,
    /// Rename source path (when in Rename mode).
    pub rename_from: Option<String>,
    pub dir_pick_focus: DirPickFocus,
    /// Whether new documents go to the working directory rather than the
    /// listed one.
    pub target_cwd: bool,
}

/// The numbers `0..n`, in order.
pub open spec fn upto(n: nat) -> Seq<usize> {
    Seq::new(n, |i: int| i as usize)
}

impl App {
    /// The state every method keeps: the shown positions point into the
    /// listing, the highlight points into what is shown, and the history is
    /// bounded.
    pub open spec fn wf(&self) -> bool {
        &&& forall|k: int|
            0 <= k < self.filtered_indices@.len() ==> #[trigger] self.filtered_indices@[k]
                < self.notes@.len()
        &&& self.selected matches Some(s) ==> s < self.filtered_indices@.len()
        &&& self.status_log@.len() <= STATUS_HISTORY
    }

    /// The position in `notes` of the highlighted document, if any.
    pub open spec fn selected_index(&self) -> Option<int> {
        match self.selected {
            Some(s) => if s < self.filtered_indices@.len() {
                Some(self.filtered_indices@[s as int] as int)
            } else {
                None
            },
            None => None,
        }
    }

    /// The relative path of the highlighted document, if any.
    pub open spec fn selected_path_text(&self) -> Option<Seq<char>> {
        match self.selected_index() {
            Some(i) => if 0 <= i < self.notes@.len() {
                Some(self.notes@[i].rel_path@)
            } else {
                None
            },
            None => None,
        }
    }

    pub fn list_len(&self) -> (r: usize)
        ensures
            r == self.filtered_indices@.len(),
    {
        self.filtered_indices.len()
    }

    /// Position in `notes` of the highlighted document.
    pub fn selected_note_index(&self) -> (r: Option<usize>)
        requires
            self.wf(),
        ensures
            match r {
                Some(i) => self.selected_index() == Some(i as int) && i < self.notes@.len(),
                None => self.selected_index() is None,
            },
    {
        match self.selected {
            Some(s) => {
                if s < self.filtered_indices.len() {
                    Some(self.filtered_indices[s])
                } else {
                    None
                }
            },
            None => None,
        }
    }

    /// The highlighted document.
    pub fn selected_note(&self) -> (r: Option<&NoteEntry>)
        requires
            self.wf(),
        ensures
            match r {
                Some(n) => self.selected_index() matches Some(i) && *n == self.notes@[i],
                None => self.selected_index() is None,
            },
    {
        match self.selected_note_index() {
            Some(i) => Some(&self.notes[i]),
            None => None,
        }
    }

    /// The relative path of the highlighted document.
    pub fn selected_rel_path(&self) -> (r: Option<String>)
        requires
            self.wf(),
        ensures
            match r {
                Some(p) => self.selected_path_text() == Some(p@),
                None => self.selected_path_text() is None,
            },
    {
        match self.selected_note_index() {
            Some(i) => Some(self.notes[i].rel_path.clone()),
            None => None,
        }
    }
}


/// The status history after `e` is logged on top of `log`: newest first,
/// never more than [`STATUS_HISTORY`] entries.
pub open spec fn logged(log: Seq<StatusEntry>, e: StatusEntry) -> Seq<StatusEntry> {
    if log.len() + 1 > STATUS_HISTORY {
        (seq![e] + log).take(STATUS_HISTORY as int)
    } else {
        seq![e] + log
    }
}

/// What the score of a match is made of: the skim score of the document's
/// name against the query, and that of its text.
pub uninterp spec fn skim_score(choice: Seq<char>, pattern: Seq<char>) -> Option<i64>;

/// fuzzy-matcher's `SkimMatcherV2::default().fuzzy_match(choice, pattern)`:
/// a score when the characters of `pattern` occur in `choice` in order
/// (without regard to case unless `pattern` holds an upper-case ASCII
/// letter), `None` otherwise. The contract claims only that the answer is a
/// function of the two texts; how the score is computed is left unsaid.
#[verifier::external_body]
fn fuzzy_score(choice: &str, pattern: &str) -> (r: Option<i64>)
    ensures
        r == skim_score(choice@, pattern@),
{
    fuzzy_matcher::FuzzyMatcher::fuzzy_match(
        &fuzzy_matcher::skim::SkimMatcherV2::default(),
        choice,
        pattern,
    )
}

/// Half of `a`, rounded toward zero (integer division by two).
pub open spec fn half(a: int) -> int {
    if a >= 0 {
        a / 2
    } else {
        -((-a) / 2)
    }
}

/// A document's search score from the score of its name and that of its
/// text: both count, the name's half again; a name alone earns a bonus of
/// 50; neither leaves the document out.
pub open spec fn combined_score(name: Option<i64>, body: Option<i64>) -> Option<int> {
    match (name, body) {
        (Some(a), Some(b)) => Some((if a >= b { a as int } else { b as int }) + half(a as int)),
        (Some(a), None) => Some(a + 50),
        (None, Some(b)) => Some(b as int),
        (None, None) => None,
    }
}

/// The indexed text of the document at `key`, if it has one.
pub open spec fn body_text(index: Seq<(String, String)>, key: Seq<char>) -> Option<Seq<char>>
    decreases index.len(),
{
    if index.len() == 0 {
        None
    } else if index[0].0@ == key {
        Some(index[0].1@)
    } else {
        body_text(index.drop_first(), key)
    }
}

/// The search score of the document at position `i`, or `None` when it does
/// not match the query.
pub open spec fn note_score(
    notes: Seq<NoteEntry>,
    index: Seq<(String, String)>,
    query: Seq<char>,
    i: int,
) -> Option<int> {
    let name = notes[i].rel_path@;
    combined_score(
        skim_score(name, query),
        match body_text(index, name) {
            Some(b) => skim_score(b, query),
            None => None,
        },
    )
}

/// Document `i` ranks before document `j`: a higher score, or the same
/// score and an earlier place in the listing.
pub open spec fn ranks_before(scores: Seq<Option<int>>, i: int, j: int) -> bool {
    scores[i]->0 > scores[j]->0 || (scores[i]->0 == scores[j]->0 && i < j)
}

/// `order` holds exactly the matching documents, each once, best first.
pub open spec fn is_ranking(scores: Seq<Option<int>>, order: Seq<usize>) -> bool {
    &&& forall|k: int|
        0 <= k < order.len() ==> #[trigger] order[k] < scores.len() && scores[order[k] as int] is Some
    &&& forall|i: int| 0 <= i < scores.len() && #[trigger] scores[i] is Some ==> order.contains(i as usize)
    &&& forall|k: int, l: int| 0 <= k < l < order.len() ==> #[trigger] order[k] != #[trigger] order[l]
    &&& forall|k: int, l: int|
        0 <= k < l < order.len() ==> ranks_before(scores, #[trigger] order[k] as int, #[trigger] order[l] as int)
}

/// The first position in `order` whose document has the relative path
/// `path`.
pub open spec fn position_of(notes: Seq<NoteEntry>, order: Seq<usize>, path: Seq<char>) -> Option<int>
    decreases order.len(),
{
    if order.len() == 0 {
        None
    } else if order[0] < notes.len() && notes[order[0] as int].rel_path@ == path {
        Some(0)
    } else {
        match position_of(notes, order.drop_first(), path) {
            Some(k) => Some(k + 1),
            None => None,
        }
    }
}

fn lookup_body(index: &Vec<(String, String)>, key: &String) -> (r: Option<String>)
    ensures
        match r {
            Some(b) => body_text(index@, key@) == Some(b@),
            None => body_text(index@, key@) is None,
        },
{
    let mut i: usize = 0;
    assert(index@.skip(0) =~= index@);
    while i < index.len()
        invariant
            i <= index.len(),
            body_text(index@, key@) == body_text(index@.skip(i as int), key@),
        decreases index.len() - i,
    {
        let ghost rest = index@.skip(i as int);
        assert(rest[0] == index@[i as int]);
        if index[i].0 == *key {
            return Some(index[i].1.clone());
        }
        assert(rest.drop_first() =~= index@.skip(i + 1));
        i += 1;
    }
    None
}

fn half_exec(a: i64) -> (r: i128)
    ensures
        r == half(a as int),
{
    let x = a as i128;
    if x >= 0 {
        x / 2
    } else {
        -((-x) / 2)
    }
}

fn combine(name: Option<i64>, body: Option<i64>) -> (r: Option<i128>)
    ensures
        match r {
            Some(v) => combined_score(name, body) == Some(v as int),
            None => combined_score(name, body) is None,
        },
{
    match (name, body) {
        (Some(a), Some(b)) => {
            let m: i128 = if a >= b {
                a as i128
            } else {
                b as i128
            };
            Some(m + half_exec(a))
        },
        (Some(a), None) => Some(a as i128 + 50),
        (None, Some(b)) => Some(b as i128),
        (None, None) => None,
    }
}

/// The positions of `notes` that match `query`, best first.
#[verifier::rlimit(60)]
fn rank_notes(notes: &Vec<NoteEntry>, index: &Vec<(String, String)>, query: &String) -> (order: Vec<usize>)
    ensures
        is_ranking(Seq::new(notes@.len(), |i: int| note_score(notes@, index@, query@, i)), order@),
{
    let ghost scores = Seq::new(notes@.len(), |i: int| note_score(notes@, index@, query@, i));
    let mut order: Vec<usize> = Vec::new();
    let mut vals: Vec<i128> = Vec::new();
    let mut i: usize = 0;
    while i < notes.len()
        invariant
            i <= notes.len(),
            scores == Seq::new(notes@.len(), |i: int| note_score(notes@, index@, query@, i)),
            order@.len() == vals@.len(),
            forall|k: int| 0 <= k < order@.len() ==> #[trigger] order@[k] < i && scores[order@[k] as int] == Some(vals@[k] as int),
            forall|j: int| 0 <= j < i && #[trigger] scores[j] is Some ==> order@.contains(j as usize),
            forall|k: int, l: int| 0 <= k < l < order@.len() ==> #[trigger] order@[k] != #[trigger] order@[l],
            forall|k: int, l: int|
                0 <= k < l < order@.len() ==> ranks_before(scores, #[trigger] order@[k] as int, #[trigger] order@[l] as int),
        decreases notes.len() - i,
    {
        let name = &notes[i].rel_path;
        let name_score = fuzzy_score(name.as_str(), query.as_str());
        let body_score = match lookup_body(index, name) {
            Some(b) => fuzzy_score(b.as_str(), query.as_str()),
            None => None,
        };
        let score = combine(name_score, body_score);
        assert(scores[i as int] == note_score(notes@, index@, query@, i as int));
        match score {
            Some(v) => {
                let ghost before = order@;
                let ghost before_vals = vals@;
                let mut pos: usize = order.len();
                while pos > 0 && vals[pos - 1] < v
                    invariant
                        pos <= order@.len(),
                        order@ == before,
                        vals@ == before_vals,
                        order@.len() == vals@.len(),
                        forall|k: int| pos <= k < order@.len() ==> (#[trigger] vals@[k]) < v,
                    decreases pos,
                {
                    pos -= 1;
                }
                order.insert(pos, i);
                vals.insert(pos, v);
                proof {
                    assert forall|k: int| 0 <= k < order@.len() implies #[trigger] order@[k] < i + 1
                        && scores[order@[k] as int] == Some(vals@[k] as int) by {
                        if k < pos {
                            assert(order@[k] == before[k] && vals@[k] == before_vals[k]);
                        } else if k > pos {
                            assert(order@[k] == before[k - 1] && vals@[k] == before_vals[k - 1]);
                        }
                    }
                    assert forall|j: int| 0 <= j < i + 1 && #[trigger] scores[j] is Some implies order@.contains(j as usize) by {
                        if j < i {
                            let k = choose|k: int| 0 <= k < before.len() && before[k] == j as usize;
                            if k < pos {
                                assert(order@[k] == before[k]);
                            } else {
                                assert(order@[k + 1] == before[k]);
                            }
                        } else {
                            assert(order@[pos as int] == i);
                        }
                    }
                    assert forall|k: int, l: int| 0 <= k < l < order@.len() implies #[trigger] order@[k] != #[trigger] order@[l] by {
                        if k < pos && l > pos {
                            assert(order@[k] == before[k] && order@[l] == before[l - 1]);
                        } else if k > pos {
                            assert(order@[k] == before[k - 1] && order@[l] == before[l - 1]);
                        } else if l < pos {
                            assert(order@[k] == before[k] && order@[l] == before[l]);
                        } else if k == pos {
                            assert(order@[l] == before[l - 1]);
                        } else {
                            assert(order@[k] == before[k]);
                        }
                    }
                    assert forall|k: int, l: int| 0 <= k < l < order@.len() implies ranks_before(
                        scores,
                        #[trigger] order@[k] as int,
                        #[trigger] order@[l] as int,
                    ) by {
                        if l < pos {
                            assert(order@[k] == before[k] && order@[l] == before[l]);
                        } else if k > pos {
                            assert(order@[k] == before[k - 1] && order@[l] == before[l - 1]);
                        } else if k == pos {
                            assert(order@[l] == before[l - 1] && vals@[l] == before_vals[l - 1]);
                        } else if l == pos {
                            assert(order@[k] == before[k] && vals@[k] == before_vals[k]);
                            assert(vals@[pos - 1] == before_vals[pos - 1]);
                            assert(before_vals[pos - 1] >= v);
                            if k < pos - 1 {
                                assert(ranks_before(scores, before[k] as int, before[pos - 1] as int));
                            }
                        } else {
                            assert(order@[k] == before[k] && order@[l] == before[l - 1]);
                            assert(vals@[k] == before_vals[k]);
                            assert(before_vals[pos - 1] >= v);
                            if k < pos - 1 {
                                assert(ranks_before(scores, before[k] as int, before[pos - 1] as int));
                            }
                            assert(before_vals[l - 1] < v);
                        }
                    }
                }
            },
            None => {},
        }
        i += 1;
    }
    order
}


/// The numbers `0..n`.
fn all_positions(n: usize) -> (r: Vec<usize>)
    ensures
        r@ == upto(n as nat),
{
    let mut r: Vec<usize> = Vec::new();
    let mut i: usize = 0;
    while i < n
        invariant
            i <= n,
            r@ == upto(i as nat),
        decreases n - i,
    {
        r.push(i);
        i += 1;
        assert(r@ =~= upto(i as nat));
    }
    r
}

fn find_position(notes: &Vec<NoteEntry>, order: &Vec<usize>, path: &String) -> (r: Option<usize>)
    ensures
        match r {
            Some(k) => position_of(notes@, order@, path@) == Some(k as int),
            None => position_of(notes@, order@, path@) is None,
        },
{
    let mut k: usize = 0;
    assert(order@.skip(0) =~= order@);
    while k < order.len()
        invariant
            k <= order.len(),
            position_of(notes@, order@, path@) == match position_of(notes@, order@.skip(k as int), path@) {
                Some(j) => Some(j + k),
                None => None,
            },
        decreases order.len() - k,
    {
        let ghost rest = order@.skip(k as int);
        assert(rest[0] == order@[k as int]);
        assert(rest.drop_first() =~= order@.skip(k + 1));
        if order[k] < notes.len() && notes[order[k]].rel_path == *path {
            return Some(k);
        }
        k += 1;
    }
    None
}

/// The documents shown for `query`: all of them in listing order when it is
/// empty, else the matching ones, best first.
pub open spec fn shows_for_query(
    notes: Seq<NoteEntry>,
    index: Seq<(String, String)>,
    query: Seq<char>,
    shown: Seq<usize>,
) -> bool {
    if query.len() == 0 {
        shown == upto(notes.len())
    } else {
        is_ranking(Seq::new(notes.len(), |i: int| note_score(notes, index, query, i)), shown)
    }
}

/// The highlight after the shown list is recomputed: none when nothing is
/// shown; else, when asked to keep it, the previously highlighted document
/// wherever it now is (the top if it is gone); else the top.
pub open spec fn highlight_after_filter(
    notes: Seq<NoteEntry>,
    shown: Seq<usize>,
    keep: bool,
    previous: Option<Seq<char>>,
) -> Option<usize> {
    if shown.len() == 0 {
        None
    } else if keep {
        match previous {
            Some(p) => match position_of(notes, shown, p) {
                Some(k) => Some(k as usize),
                None => Some(0),
            },
            None => Some(0),
        }
    } else {
        Some(0)
    }
}

/// The highlight after the listing is reloaded: the previously highlighted
/// document wherever it now is, else what recomputing the list gave.
pub open spec fn highlight_after_reload(
    notes: Seq<NoteEntry>,
    shown: Seq<usize>,
    previous: Option<Seq<char>>,
) -> Option<usize> {
    match previous {
        Some(p) => match position_of(notes, shown, p) {
            Some(k) => Some(k as usize),
            None => highlight_after_filter(notes, shown, false, None),
        },
        None => highlight_after_filter(notes, shown, false, None),
    }
}

proof fn lemma_position_in_range(notes: Seq<NoteEntry>, order: Seq<usize>, path: Seq<char>)
    ensures
        position_of(notes, order, path) matches Some(k) ==> 0 <= k < order.len(),
    decreases order.len(),
{
    if order.len() > 0 {
        lemma_position_in_range(notes, order.drop_first(), path);
    }
}

proof fn lemma_ranking_in_range(scores: Seq<Option<int>>, order: Seq<usize>)
    requires
        is_ranking(scores, order),
    ensures
        forall|k: int| 0 <= k < order.len() ==> #[trigger] order[k] < scores.len(),
{
}

/// The directory new documents go to: the working directory (`.` when its
/// name is not known) or the listed directory.
pub open spec fn target_text(app: App) -> Seq<char> {
    if app.target_cwd {
        match app.cwd {
            Some(c) => c@,
            None => "."@,
        }
    } else {
        app.directory@
    }
}

/// `new` is `old` with the status message `text` shown and logged.
pub open spec fn with_status(old: App, new: App, text: Seq<char>, is_error: bool) -> bool {
    &&& new.status_message matches Some(e) && e.text@ == text && e.is_error == is_error
    &&& new.status_log@ == logged(old.status_log@, new.status_message->0)
    &&& new == (App { status_log: new.status_log, status_message: new.status_message, ..old })
}

/// `app` with the highlight moved by `delta`, stopping at either end of the
/// list; moving it resets the preview.
pub open spec fn moved(app: App, delta: int) -> App {
    let len = app.filtered_indices@.len();
    let cur: int = match app.selected {
        Some(s) => s as int,
        None => 0,
    };
    let next: int = if cur + delta < 0 {
        0
    } else if cur + delta > len - 1 {
        len - 1
    } else {
        cur + delta
    };
    if len == 0 || next == cur {
        app
    } else {
        App { selected: Some(next as usize), preview_cache: None, preview_scroll: 0, ..app }
    }
}

/// `new` is `old` with the shown list recomputed from the search query (see
/// [`shows_for_query`] and [`highlight_after_filter`]).
pub open spec fn refiltered(old: App, keep: bool, new: App) -> bool {
    &&& shows_for_query(old.notes@, old.body_index@, old.search_query@, new.filtered_indices@)
    &&& new.selected == highlight_after_filter(
        old.notes@,
        new.filtered_indices@,
        keep,
        old.selected_path_text(),
    )
    &&& new == (App {
        filtered_indices: new.filtered_indices,
        selected: new.selected,
        preview_cache: None,
        ..old
    })
}

/// `new` is `old` with a fresh listing taken in: `walked` sorted by the
/// current mode, `bodies` as the search index, the shown list recomputed and
/// the highlight kept on the same document where it is still listed.
pub open spec fn reloaded(old: App, walked: Seq<NoteEntry>, bodies: Seq<(String, String)>, new: App) -> bool {
    &&& exists|perm: Seq<int>| crate::notes::is_stable_sort(old.sort, walked, perm, new.notes@)
    &&& new.body_index@ == bodies
    &&& shows_for_query(new.notes@, new.body_index@, old.search_query@, new.filtered_indices@)
    &&& new.selected == highlight_after_reload(
        new.notes@,
        new.filtered_indices@,
        old.selected_path_text(),
    )
    &&& new == (App {
        notes: new.notes,
        body_index: new.body_index,
        filtered_indices: new.filtered_indices,
        selected: new.selected,
        preview_cache: None,
        ..old
    })
}

/// `new` is `old` switched to the next sort mode, with `walked` sorted by it
/// (the search index kept).
pub open spec fn resorted(old: App, walked: Seq<NoteEntry>, new: App) -> bool {
    &&& new.sort == old.sort.spec_next()
    &&& exists|perm: Seq<int>| crate::notes::is_stable_sort(new.sort, walked, perm, new.notes@)
    &&& shows_for_query(new.notes@, old.body_index@, old.search_query@, new.filtered_indices@)
    &&& new.selected == highlight_after_reload(
        new.notes@,
        new.filtered_indices@,
        old.selected_path_text(),
    )
    &&& new == (App {
        sort: new.sort,
        notes: new.notes,
        filtered_indices: new.filtered_indices,
        selected: new.selected,
        preview_cache: None,
        ..old
    })
}

/// `new` is `old` listing `dir` (whose listing is `walked` and `bodies`),
/// with `dir` remembered and the search cleared.
pub open spec fn moved_to(
    old: App,
    dir: Seq<char>,
    walked: Seq<NoteEntry>,
    bodies: Seq<(String, String)>,
    new: App,
) -> bool {
    &&& texts(new.recent_dirs@) == remembered(texts(old.recent_dirs@), dir)
    &&& new.directory@ == dir
    &&& new.search_query@.len() == 0
    &&& reloaded(
        App {
            recent_dirs: new.recent_dirs,
            directory: new.directory,
            search_query: new.search_query,
            ..old
        },
        walked,
        bodies,
        new,
    )
}

impl App {
    fn push_status(&mut self, msg: String, is_error: bool)
        requires
            old(self).wf(),
        ensures
            final(self).wf(),
            with_status(*old(self), *final(self), msg@, is_error),
    {
        let entry = StatusEntry { text: msg, is_error };
        self.status_log.insert(0, entry.duplicate());
        if self.status_log.len() > STATUS_HISTORY {
            self.status_log.truncate(STATUS_HISTORY);
        }
        self.status_message = Some(entry);
        assert(self.status_log@ =~= logged(old(self).status_log@, self.status_message->0));
    }

    /// Show `msg` as an ordinary status message and log it.
    pub fn set_status(&mut self, msg: &str)
        requires
            old(self).wf(),
        ensures
            final(self).wf(),
            with_status(*old(self), *final(self), msg@, false),
    {
        self.push_status(string_of(&chars_of(msg)), false);
    }

    /// Show `msg` as an error and log it.
    pub fn set_error(&mut self, msg: &str)
        requires
            old(self).wf(),
        ensures
            final(self).wf(),
            with_status(*old(self), *final(self), msg@, true),
    {
        self.push_status(string_of(&chars_of(msg)), true);
    }

    pub fn clear_status(&mut self)
        ensures
            *final(self) == (App { status_message: None, ..*old(self) }),
    {
        self.status_message = None;
    }

    /// Move the highlight by `delta`, stopping at either end of the list.
    pub fn move_selection(&mut self, delta: i32)
        requires
            old(self).wf(),
        ensures
            final(self).wf(),
            *final(self) == moved(*old(self), delta as int),
    {
        let len = self.filtered_indices.len();
        if len == 0 {
            return;
        }
        let cur: i128 = match self.selected {
            Some(s) => s as i128,
            None => 0,
        };
        let moved: i128 = cur + delta as i128;
        let next: i128 = if moved < 0 {
            0
        } else if moved > len as i128 - 1 {
            len as i128 - 1
        } else {
            moved
        };
        if next != cur {
            self.selected = Some(next as usize);
            self.preview_cache = None;
            self.preview_scroll = 0;
        }
    }

    /// Recompute the shown list from `search_query`. If `preserve_selection`
    /// is true, try to keep the currently highlighted document highlighted.
    pub fn recompute_filter(&mut self, preserve_selection: bool)
        requires
            old(self).wf(),
        ensures
            final(self).wf(),
            refiltered(*old(self), preserve_selection, *final(self)),
    {
        let previous = self.selected_rel_path();
        if self.search_query.as_str().is_empty() {
            self.filtered_indices = all_positions(self.notes.len());
            proof {
                assert(self.search_query@.len() == 0);
            }
        } else {
            self.filtered_indices = rank_notes(&self.notes, &self.body_index, &self.search_query);
            proof {
                assert(self.search_query@.len() != 0);
                lemma_ranking_in_range(
                    Seq::new(self.notes@.len(), |i: int| note_score(self.notes@, self.body_index@, self.search_query@, i)),
                    self.filtered_indices@,
                );
            }
        }
        if self.filtered_indices.len() == 0 {
            self.selected = None;
        } else if preserve_selection {
            let pos = match &previous {
                Some(p) => match find_position(&self.notes, &self.filtered_indices, &p) {
                    Some(k) => k,
                    None => 0,
                },
                None => 0,
            };
            proof {
                if let Some(p) = &previous {
                    lemma_position_in_range(self.notes@, self.filtered_indices@, p@);
                }
            }
            self.selected = Some(pos);
        } else {
            self.selected = Some(0);
        }
        self.preview_cache = None;
    }
}


/// The texts of a list of `String`s.
pub open spec fn texts(v: Seq<String>) -> Seq<Seq<char>> {
    v.map_values(|s: String| s@)
}

/// The recent-directory list after visiting `dir`: unchanged if `dir` is in
/// it, else `dir` first and at most [`RECENT_DIRS`] entries kept.
pub open spec fn remembered(recent: Seq<Seq<char>>, dir: Seq<char>) -> Seq<Seq<char>> {
    if recent.contains(dir) {
        recent
    } else if recent.len() + 1 > RECENT_DIRS {
        (seq![dir] + recent).take(RECENT_DIRS as int)
    } else {
        seq![dir] + recent
    }
}

/// The picker's first list of directories: the candidates in order, leaving
/// out missing and empty ones and any already listed.
pub open spec fn seeded(acc: Seq<Seq<char>>, candidates: Seq<Option<Seq<char>>>) -> Seq<Seq<char>>
    decreases candidates.len(),
{
    if candidates.len() == 0 {
        acc
    } else {
        let next = match candidates[0] {
            Some(c) => if c.len() > 0 && !acc.contains(c) {
                acc.push(c)
            } else {
                acc
            },
            None => acc,
        };
        seeded(next, candidates.drop_first())
    }
}

fn contains_text(v: &Vec<String>, s: &String) -> (r: bool)
    ensures
        r == texts(v@).contains(s@),
{
    let mut i: usize = 0;
    while i < v.len()
        invariant
            i <= v.len(),
            forall|j: int| 0 <= j < i ==> v@[j]@ != s@,
        decreases v.len() - i,
    {
        if v[i] == *s {
            assert(texts(v@)[i as int] == s@);
            return true;
        }
        i += 1;
    }
    assert forall|j: int| 0 <= j < texts(v@).len() implies texts(v@)[j] != s@ by {
        assert(texts(v@)[j] == v@[j]@);
    }
    false
}

/// Build the initial list of directories for the directory picker from its
/// candidates (the listed directory, the working directory, the configured
/// notes directory, the home directory, the listed directory's parent).
pub fn seed_recent_dirs(candidates: Vec<Option<String>>) -> (r: Vec<String>)
    ensures
        texts(r@) == seeded(
            Seq::empty(),
            candidates@.map_values(|c: Option<String>| match c {
                Some(s) => Some(s@),
                None => None,
            }),
        ),
{
    let ghost cands = candidates@.map_values(|c: Option<String>| match c {
        Some(s) => Some(s@),
        None => None,
    });
    let mut out: Vec<String> = Vec::new();
    let mut i: usize = 0;
    assert(cands.skip(0) =~= cands);
    assert(texts(out@) =~= Seq::<Seq<char>>::empty());
    while i < candidates.len()
        invariant
            i <= candidates.len(),
            cands == candidates@.map_values(|c: Option<String>| match c {
                Some(s) => Some(s@),
                None => None,
            }),
            seeded(Seq::empty(), cands) == seeded(texts(out@), cands.skip(i as int)),
        decreases candidates.len() - i,
    {
        let ghost rest = cands.skip(i as int);
        assert(rest[0] == cands[i as int]);
        assert(rest.drop_first() =~= cands.skip(i + 1));
        let ghost before = texts(out@);
        match &candidates[i] {
            Some(c) => {
                assert(cands[i as int] == Some(c@));
                if !c.as_str().is_empty() && !contains_text(&out, c) {
                    out.push(c.clone());
                    assert(texts(out@) =~= before.push(c@));
                }
            },
            None => {
                assert(cands[i as int] is None);
            },
        }
        i += 1;
    }
    assert(cands.skip(i as int) =~= Seq::<Option<Seq<char>>>::empty());
    out
}

impl App {
    /// A fresh interface over `directory`, before anything is listed.
    pub fn new(directory: &str, show_all: bool, cwd: Option<&str>, author: &str, recent_dirs: Vec<String>) -> (r: App)
        ensures
            r.wf(),
            r.directory@ == directory@,
            r.notes_root@ == directory@,
            match cwd {
                Some(c) => r.cwd matches Some(rc) && rc@ == c@,
                None => r.cwd is None,
            },
            r.author@ == author@,
            r.recent_dirs == recent_dirs,
            r.recent_selected == Some(0usize),
            r.notes@.len() == 0,
            r.body_index@.len() == 0,
            r.filtered_indices@.len() == 0,
            r.selected is None,
            r.input@.len() == 0,
            r.mode == AppMode::Normal,
            r.pending == Pending::Idle,
            r.search_query@.len() == 0,
            r.show_all == show_all,
            !r.recursive,
            r.sort == SortMode::NameAsc,
            !r.preview_open,
            r.preview_cache is None,
            r.preview_scroll == 0,
            r.focus == Focus::List,
            r.status_log@.len() == 0,
            r.status_message is None,
            r.template_selected == Some(0usize),
            r.templates@ == seq![Template::Blank, Template::Readme, Template::Journal],
            r.chosen_template == Template::Blank,
            r.last_trash is None,
            r.rename_from is None,
            r.dir_pick_focus == DirPickFocus::Recents,
            !r.target_cwd,
    {
        let templates = Template::all();
        App {
            directory: string_of(&chars_of(directory)),
            notes_root: string_of(&chars_of(directory)),
            cwd: match cwd {
                Some(c) => Some(string_of(&chars_of(c))),
                None => None,
            },
            author: string_of(&chars_of(author)),
            recent_dirs,
            recent_selected: Some(0),
            notes: Vec::new(),
            body_index: Vec::new(),
            filtered_indices: Vec::new(),
            selected: None,
            input: String::new(),
            mode: AppMode::Normal,
            pending: Pending::Idle,
            search_query: String::new(),
            show_all,
            recursive: false,
            sort: SortMode::NameAsc,
            preview_open: false,
            preview_cache: None,
            preview_scroll: 0,
            focus: Focus::List,
            status_log: Vec::new(),
            status_message: None,
            template_selected: Some(0),
            templates,
            chosen_template: Template::Blank,
            last_trash: None,
            rename_from: None,
            dir_pick_focus: DirPickFocus::Recents,
            target_cwd: false,
        }
    }

    /// Take in a fresh listing (`walked`, as found on disk, and the heads of
    /// the documents' texts by relative path), sort it, rebuild the shown
    /// list and keep the highlight on the same document where it is still
    /// listed.
    pub fn refresh_notes(&mut self, walked: Vec<NoteEntry>, bodies: Vec<(String, String)>)
        requires
            old(self).wf(),
        ensures
            final(self).wf(),
            reloaded(*old(self), walked@, bodies@, *final(self)),
    {
        let previous = self.selected_rel_path();
        self.notes = list_notes(walked, self.sort);
        self.body_index = bodies;
        self.filtered_indices = Vec::new();
        self.selected = None;
        self.restore_after_reload(previous);
    }

    fn restore_after_reload(&mut self, previous: Option<String>)
        requires
            old(self).filtered_indices@.len() == 0,
            old(self).selected is None,
            old(self).status_log@.len() <= STATUS_HISTORY,
        ensures
            final(self).wf(),
            shows_for_query(
                old(self).notes@,
                old(self).body_index@,
                old(self).search_query@,
                final(self).filtered_indices@,
            ),
            final(self).selected == highlight_after_reload(
                old(self).notes@,
                final(self).filtered_indices@,
                match previous {
                    Some(p) => Some(p@),
                    None => None,
                },
            ),
            *final(self) == (App {
                filtered_indices: final(self).filtered_indices,
                selected: final(self).selected,
                preview_cache: None,
                ..*old(self)
            }),
    {
        self.recompute_filter(false);
        if let Some(p) = &previous {
            proof {
                lemma_position_in_range(self.notes@, self.filtered_indices@, p@);
            }
            if let Some(pos) = find_position(&self.notes, &self.filtered_indices, p) {
                self.selected = Some(pos);
            }
        }
        self.preview_cache = None;
    }

    /// Switch to the next sort mode and re-sort a fresh listing `walked`,
    /// keeping the highlight on the same document.
    pub fn cycle_sort(&mut self, walked: Vec<NoteEntry>)
        requires
            old(self).wf(),
        ensures
            final(self).wf(),
            resorted(*old(self), walked@, *final(self)),
    {
        self.sort = self.sort.next();
        let previous = self.selected_rel_path();
        self.notes = list_notes(walked, self.sort);
        self.filtered_indices = Vec::new();
        self.selected = None;
        self.restore_after_reload(previous);
    }

    /// Flip recursive listing and take in the listing `walked` made with it.
    pub fn toggle_recursive(&mut self, walked: Vec<NoteEntry>, bodies: Vec<(String, String)>)
        requires
            old(self).wf(),
        ensures
            final(self).wf(),
            final(self).recursive == !old(self).recursive,
            reloaded(App { recursive: final(self).recursive, ..*old(self) }, walked@, bodies@, *final(self)),
    {
        self.recursive = !self.recursive;
        self.refresh_notes(walked, bodies);
    }

    /// List `new_dir` instead (its listing being `walked`), remembering it
    /// among the recent directories and clearing the search.
    pub fn change_directory(&mut self, new_dir: &str, walked: Vec<NoteEntry>, bodies: Vec<(String, String)>)
        requires
            old(self).wf(),
        ensures
            final(self).wf(),
            moved_to(*old(self), new_dir@, walked@, bodies@, *final(self)),
    {
        let dir = string_of(&chars_of(new_dir));
        if !contains_text(&self.recent_dirs, &dir) {
            let ghost before = self.recent_dirs@;
            self.recent_dirs.insert(0, dir.clone());
            assert(texts(self.recent_dirs@) =~= seq![new_dir@] + texts(before));
            if self.recent_dirs.len() > RECENT_DIRS {
                self.recent_dirs.truncate(RECENT_DIRS);
                assert(texts(self.recent_dirs@) =~= (seq![new_dir@] + texts(before)).take(RECENT_DIRS as int));
            }
        }
        self.directory = dir;
        self.search_query = String::new();
        self.refresh_notes(walked, bodies);
    }

    /// Flip where new documents go.
    pub fn toggle_target(&mut self)
        ensures
            *final(self) == (App { target_cwd: !old(self).target_cwd, ..*old(self) }),
    {
        self.target_cwd = !self.target_cwd;
    }

    /// Where new documents go, in words.
    pub fn target_label(&self) -> (r: &'static str)
        ensures
            r@ == if self.target_cwd { "CWD"@ } else { "notes dir"@ },
    {
        if self.target_cwd {
            "CWD"
        } else {
            "notes dir"
        }
    }

    /// The directory new documents go to.
    pub fn target_dir(&self) -> (r: String)
        ensures
            r@ == target_text(*self),
    {
        if self.target_cwd {
            match &self.cwd {
                Some(c) => c.clone(),
                None => string_of(&chars_of(".")),
            }
        } else {
            self.directory.clone()
        }
    }
}

} // verus!
