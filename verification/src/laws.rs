//! Properties that hold across the library's functions.
use vstd::prelude::*;
use crate::app::{
    body_text, shows_for_query, is_ranking, logged, position_of, ranks_before, refiltered, reloaded, remembered, App, Pending,
    StatusEntry, RECENT_DIRS, STATUS_HISTORY,
};
use crate::keys::{normal_step, selected_full_path, took_deletion, Effect, Key, KeyPress};
use crate::cli::ExportFormat;
use crate::notes::{
    is_adoc_name, is_stable_sort, is_stamp_text, stamp_has_no_slash, placed_before, sorts_before, trashed_name, walk_decision,
    NoteEntry, SortMode, WalkStep,
};
use crate::templates::{template_named, Template};
use crate::paths::join_path;
use crate::text::{lower, replace_all};

verus! {

proof fn placed_before_asymmetric(mode: SortMode, s: Seq<NoteEntry>, a: int, b: int)
    requires
        0 <= a < s.len(),
        0 <= b < s.len(),
        placed_before(mode, s, a, b),
    ensures
        !placed_before(mode, s, b, a),
{
    crate::notes::sorts_before_weak(mode, s[a], s[b], s[b]);
}

/// A listing sorted stably by a mode is in that mode's order: no entry sorts
/// strictly before one that comes earlier.
pub proof fn sorted_listing_in_order(mode: SortMode, input: Seq<NoteEntry>, perm: Seq<int>, out: Seq<NoteEntry>)
    requires
        is_stable_sort(mode, input, perm, out),
    ensures
        forall|i: int, j: int| 0 <= i < j < out.len() ==> !sorts_before(mode, #[trigger] out[j], #[trigger] out[i]),
{
    assert forall|i: int, j: int| 0 <= i < j < out.len() implies !sorts_before(mode, #[trigger] out[j], #[trigger] out[i]) by {
        assert(placed_before(mode, input, perm[i], perm[j]));
        crate::notes::sorts_before_weak(mode, input[perm[i]], input[perm[j]], input[perm[j]]);
    }
}

/// Sorting is determined: two stable sorts of the same listing by the same
/// mode are the same list.
pub proof fn stable_sort_unique(
    mode: SortMode,
    input: Seq<NoteEntry>,
    p1: Seq<int>,
    o1: Seq<NoteEntry>,
    p2: Seq<int>,
    o2: Seq<NoteEntry>,
)
    requires
        is_stable_sort(mode, input, p1, o1),
        is_stable_sort(mode, input, p2, o2),
    ensures
        o1 == o2,
{
    if exists|k: int| 0 <= k < p1.len() && p1[k] != p2[k] {
        let k = choose|k: int| 0 <= k < p1.len() && p1[k] != p2[k] && forall|m: int|
            0 <= m < k ==> p1[m] == p2[m];
        assert(exists|k: int| 0 <= k < p1.len() && p1[k] != p2[k] && forall|m: int|
            0 <= m < k ==> p1[m] == p2[m]) by {
            let k0 = choose|k: int| 0 <= k < p1.len() && p1[k] != p2[k];
            first_difference(p1, p2, k0);
        }
        let a = p1[k];
        let b = p2[k];
        assert(p1.contains(b));
        let j = choose|j: int| 0 <= j < p1.len() && p1[j] == b;
        assert(p2.contains(a));
        let i = choose|i: int| 0 <= i < p2.len() && p2[i] == a;
        if j < k {
            assert(p2[j] == b);
        }
        if i < k {
            assert(p1[i] == a);
        }
        assert(placed_before(mode, input, a, b));
        assert(placed_before(mode, input, b, a));
        placed_before_asymmetric(mode, input, a, b);
    }
    assert(o1 =~= o2);
}

/// Where two sequences differ, there is a first position where they do.
proof fn first_difference<T>(p1: Seq<T>, p2: Seq<T>, k0: int)
    requires
        0 <= k0 < p1.len(),
        p1.len() <= p2.len(),
        p1[k0] != p2[k0],
    ensures
        exists|k: int| 0 <= k < p1.len() && p1[k] != p2[k] && forall|m: int| 0 <= m < k ==> p1[m] == p2[m],
    decreases k0,
{
    if exists|m: int| 0 <= m < k0 && p1[m] != p2[m] {
        let m = choose|m: int| 0 <= m < k0 && p1[m] != p2[m];
        first_difference(p1, p2, m);
    } else {
        assert(forall|m: int| 0 <= m < k0 ==> p1[m] == p2[m]);
    }
}

/// A search has one answer: two rankings of the same scores are the same
/// list.
pub proof fn ranking_unique(scores: Seq<Option<int>>, o1: Seq<usize>, o2: Seq<usize>)
    requires
        is_ranking(scores, o1),
        is_ranking(scores, o2),
    ensures
        o1 == o2,
{
    // Each ranking holds exactly the matching documents, so they are as long
    // as each other: a longer one would hold a document the other lacks.
    lemma_ranking_lengths(scores, o1, o2);
    lemma_ranking_lengths(scores, o2, o1);
    if exists|k: int| 0 <= k < o1.len() && o1[k] != o2[k] {
        assert(exists|k: int| 0 <= k < o1.len() && o1[k] != o2[k] && forall|m: int|
            0 <= m < k ==> o1[m] == o2[m]) by {
            let k0 = choose|k: int| 0 <= k < o1.len() && o1[k] != o2[k];
            first_difference(o1, o2, k0);
        }
        let k = choose|k: int| 0 <= k < o1.len() && o1[k] != o2[k] && forall|m: int|
            0 <= m < k ==> o1[m] == o2[m];
        let a = o1[k];
        let b = o2[k];
        assert(scores[b as int] is Some);
        assert(o1.contains(b));
        let j = choose|j: int| 0 <= j < o1.len() && o1[j] == b;
        assert(scores[a as int] is Some);
        assert(o2.contains(a));
        let i = choose|i: int| 0 <= i < o2.len() && o2[i] == a;
        if j < k {
            assert(o2[j] == b);
        }
        if i < k {
            assert(o1[i] == a);
        }
        assert(ranks_before(scores, a as int, b as int));
        assert(ranks_before(scores, b as int, a as int));
    }
    assert(o1 =~= o2);
}

/// A ranking is at least as long as any other ranking of the same scores.
proof fn lemma_ranking_lengths(scores: Seq<Option<int>>, short: Seq<usize>, long: Seq<usize>)
    requires
        is_ranking(scores, short),
        is_ranking(scores, long),
    ensures
        long.len() <= short.len(),
{
    // Every element of `long` occurs in `short`; map each position of `long`
    // to its position in `short` and count.
    let f = |p: int| choose|q: int| 0 <= q < short.len() && short[q] == long[p];
    assert forall|p: int| 0 <= p < long.len() implies 0 <= #[trigger] f(p) < short.len() && short[f(p)]
        == long[p] by {
        assert(scores[long[p] as int] is Some);
        assert(short.contains(long[p]));
    }
    pigeonhole(long, short, f);
}

/// Distinct positions of `long` cannot all land on fewer positions of `short`.
proof fn pigeonhole(long: Seq<usize>, short: Seq<usize>, f: spec_fn(int) -> int)
    requires
        forall|p: int| 0 <= p < long.len() ==> 0 <= #[trigger] f(p) < short.len() && short[f(p)] == long[p],
        forall|i: int, j: int| 0 <= i < j < long.len() ==> #[trigger] long[i] != #[trigger] long[j],
    ensures
        long.len() <= short.len(),
{
    let domain = vstd::set_lib::set_int_range(0, long.len() as int);
    let range = vstd::set_lib::set_int_range(0, short.len() as int);
    let images = domain.map(f);
    vstd::set_lib::lemma_int_range(0, short.len() as int);
    vstd::set_lib::lemma_int_range(0, long.len() as int);
    assert forall|q: int| images.contains(q) implies range.contains(q) by {
        let p = choose|p: int| domain.contains(p) && q == f(p);
        assert(0 <= f(p) < short.len());
    }
    vstd::set_lib::lemma_len_subset(images, range);
    // f is one-to-one on the positions of `long`.
    assert forall|i: int, j: int| domain.contains(i) && domain.contains(j) && #[trigger] f(i) == #[trigger] f(j) implies i == j by {
        if i != j {
            if i < j {
                assert(long[i] != long[j]);
            } else {
                assert(long[j] != long[i]);
            }
        }
    }
    vstd::set_lib::lemma_map_size(domain, images, f);
}

/// Every built-in template is found again by its own name.
pub proof fn template_name_round_trip(t: Template)
    ensures
        template_named(t.name_text()) == Some(t),
{
    reveal_strlit("blank");
    reveal_strlit("readme");
    reveal_strlit("journal");
    let n = t.name_text();
    match t {
        Template::Blank => {
            assert(lower(n) =~= seq!['b', 'l', 'a', 'n', 'k']);
        },
        Template::Readme => {
            assert(lower(n) =~= seq!['r', 'e', 'a', 'd', 'm', 'e']);
        },
        Template::Journal => {
            assert(lower(n) =~= seq!['j', 'o', 'u', 'r', 'n', 'a', 'l']);
        },
    }
}

/// A chord is pending after a key in normal mode only when that key was the
/// one that starts it: `e` for an export, `d` for a deletion. Any other key
/// finishes or drops it.
pub proof fn chord_pending_only_after_its_key(old: App, press: KeyPress, new: App, eff: Effect)
    requires
        normal_step(old, press, new, eff),
    ensures
        new.pending == Pending::Idle || (press.key == Key::Char('e') && new.pending == Pending::Export)
            || (press.key == Key::Char('d') && new.pending == Pending::Delete),
{
}

/// Undo takes back the last deletion: `u` asks to move the trashed file back
/// to the path it was deleted from.
pub proof fn undo_restores_last_delete(old: App, press: KeyPress, new: App, eff: Effect)
    requires
        old.pending == Pending::Idle,
        old.last_trash is Some,
        press.key == Key::Char('u'),
        normal_step(old, press, new, eff),
    ensures
        eff matches Effect::Restore { trashed, original, display } && trashed@
            == old.last_trash->0.trashed_path@ && original@ == old.last_trash->0.original_path@
            && display@ == old.last_trash->0.display_name@,
        new == old,
{
}

/// The status history keeps the newest message first, drops only the
/// oldest, and never holds more than its limit.
pub proof fn status_history_law(log: Seq<StatusEntry>, e: StatusEntry)
    requires
        log.len() <= STATUS_HISTORY,
    ensures
        logged(log, e).len() <= STATUS_HISTORY,
        logged(log, e)[0] == e,
        logged(log, e).drop_first() == log.take(logged(log, e).len() - 1),
{
    let l = logged(log, e);
    assert(l.drop_first() =~= log.take(l.len() - 1));
}

/// The recent directories: a visited directory is among them, the list
/// never grows past its limit, and no directory is listed twice.
pub proof fn recent_dirs_law(recent: Seq<Seq<char>>, dir: Seq<char>)
    requires
        recent.len() <= RECENT_DIRS,
        forall|i: int, j: int| 0 <= i < j < recent.len() ==> recent[i] != recent[j],
    ensures
        remembered(recent, dir).contains(dir),
        remembered(recent, dir).len() <= RECENT_DIRS,
        forall|i: int, j: int|
            0 <= i < j < remembered(recent, dir).len() ==> remembered(recent, dir)[i] != remembered(
                recent,
                dir,
            )[j],
{
    let r = remembered(recent, dir);
    if !recent.contains(dir) {
        assert(r[0] == dir);
        assert forall|i: int, j: int| 0 <= i < j < r.len() implies r[i] != r[j] by {
            if i == 0 {
                assert(r[j] == recent[j - 1]);
            } else {
                assert(r[i] == recent[i - 1] && r[j] == recent[j - 1]);
            }
        }
    }
}

/// The directory walk never lists or enters a hidden entry, and lists only
/// AsciiDoc files unless asked for all.
pub proof fn walk_law(name: Seq<char>, is_dir: bool, is_file: bool, only_adoc: bool, recursive: bool)
    ensures
        name.len() > 0 && name[0] == '.' ==> walk_decision(name, is_dir, is_file, only_adoc, recursive)
            == WalkStep::Skip,
        walk_decision(name, is_dir, is_file, only_adoc, recursive) == WalkStep::Keep ==> is_file
            && !is_dir && (only_adoc ==> is_adoc_name(name)),
        walk_decision(name, is_dir, is_file, only_adoc, recursive) == WalkStep::Descend ==> is_dir
            && recursive,
{
}

/// Where a document with the relative path `path` is shown.
pub open spec fn shown_at(app: App, k: int, path: Seq<char>) -> bool {
    &&& 0 <= k < app.filtered_indices@.len()
    &&& app.filtered_indices@[k] < app.notes@.len()
    &&& app.notes@[app.filtered_indices@[k] as int].rel_path@ == path
}

proof fn lemma_position_found(notes: Seq<NoteEntry>, order: Seq<usize>, path: Seq<char>, k: int)
    requires
        0 <= k < order.len(),
        order[k] < notes.len(),
        notes[order[k] as int].rel_path@ == path,
    ensures
        position_of(notes, order, path) matches Some(j) && 0 <= j < order.len() && order[j] < notes.len()
            && notes[order[j] as int].rel_path@ == path,
    decreases order.len(),
{
    if !(order[0] < notes.len() && notes[order[0] as int].rel_path@ == path) {
        lemma_position_found(notes, order.drop_first(), path, k - 1);
    }
}

/// Taking in a fresh listing keeps the highlight on the document that was
/// highlighted, wherever it is now shown.
pub proof fn reload_keeps_highlight(
    old: App,
    walked: Seq<NoteEntry>,
    bodies: Seq<(String, String)>,
    new: App,
    path: Seq<char>,
    k: int,
)
    requires
        reloaded(old, walked, bodies, new),
        old.selected_path_text() == Some(path),
        shown_at(new, k, path),
    ensures
        new.selected_path_text() == Some(path),
{
    lemma_position_found(new.notes@, new.filtered_indices@, path, k);
    let j = position_of(new.notes@, new.filtered_indices@, path)->0;
    assert(new.filtered_indices@.len() == new.filtered_indices.len());
    assert(new.selected == Some(j as usize));
    assert(new.selected_index() == Some(new.filtered_indices@[j] as int));
}

/// Narrowing or widening the search keeps the highlight on the document
/// that was highlighted, wherever it is still shown.
pub proof fn search_keeps_highlight(old: App, new: App, path: Seq<char>, k: int)
    requires
        refiltered(old, true, new),
        old.selected_path_text() == Some(path),
        shown_at(new, k, path),
    ensures
        new.selected_path_text() == Some(path),
{
    lemma_position_found(new.notes@, new.filtered_indices@, path, k);
    let j = position_of(new.notes@, new.filtered_indices@, path)->0;
    assert(new.filtered_indices@.len() == new.filtered_indices.len());
    assert(new.selected == Some(j as usize));
    assert(new.selected_index() == Some(new.filtered_indices@[j] as int));
}

proof fn lemma_concat_lacks(a: Seq<char>, b: Seq<char>, c: char)
    requires
        !a.contains(c),
        !b.contains(c),
    ensures
        !(a + b).contains(c),
{
    assert forall|i: int| 0 <= i < (a + b).len() implies (a + b)[i] != c by {
        if i < a.len() {
            assert((a + b)[i] == a[i]);
        } else {
            assert((a + b)[i] == b[i - a.len()]);
        }
    }
}

/// Replacing every `c`, or replacing anything in a text free of `c`, by a
/// text free of `c` leaves no `c`.
proof fn lemma_replace_lacks(s: Seq<char>, pat: Seq<char>, rep: Seq<char>, c: char)
    requires
        !rep.contains(c),
        pat == seq![c] || !s.contains(c),
    ensures
        !replace_all(s, pat, rep).contains(c),
    decreases s.len(),
{
    if s.len() > 0 {
        if pat.len() > 0 && pat.is_prefix_of(s) {
            let rest = s.skip(pat.len() as int);
            if !s.contains(c) {
                assert forall|i: int| 0 <= i < rest.len() implies rest[i] != c by {
                    assert(rest[i] == s[i + pat.len()]);
                }
            }
            lemma_replace_lacks(rest, pat, rep, c);
            lemma_concat_lacks(rep, replace_all(rest, pat, rep), c);
        } else {
            let rest = s.skip(1);
            if pat == seq![c] {
                assert(s[0] != c) by {
                    if s[0] == c {
                        assert(pat.is_prefix_of(s));
                    }
                }
            } else {
                assert(s[0] != c);
                assert forall|i: int| 0 <= i < rest.len() implies rest[i] != c by {
                    assert(rest[i] == s[i + 1]);
                }
            }
            lemma_replace_lacks(rest, pat, rep, c);
            assert(!seq![s[0]].contains(c)) by {
                assert(seq![s[0]][0] == s[0]);
            }
            lemma_concat_lacks(seq![s[0]], replace_all(rest, pat, rep), c);
        }
    }
}

/// A deleted document lands directly in the trash directory: the name it
/// gets there holds no `/` (given a time stamp without one), so it is one
/// entry inside `.scribe-trash`, whatever directories the document was in.
pub proof fn trash_is_flat(root: Seq<char>, file_path: Seq<char>, stamp: Seq<char>)
    requires
        !stamp.contains('/'),
    ensures
        !trashed_name(root, file_path, stamp).contains('/'),
        join_path(join_path(root, ".scribe-trash"@), trashed_name(root, file_path, stamp))
            == join_path(root, ".scribe-trash"@) + seq!['/'] + trashed_name(root, file_path, stamp),
{
    reveal_strlit(".scribe-trash");
    let rel = match crate::paths::path_without_prefix(file_path, root) {
        Some(r) => r,
        None => file_path,
    };
    let twice = seq!['_', '_'];
    assert(!twice.contains('/')) by {
        assert(twice[0] == '_' && twice[1] == '_');
    }
    lemma_replace_lacks(rel, seq!['/'], twice, '/');
    let once = replace_all(rel, seq!['/'], twice);
    lemma_replace_lacks(once, seq!['\\'], twice, '/');
    let flat = replace_all(once, seq!['\\'], twice);
    lemma_concat_lacks(stamp, twice, '/');
    lemma_concat_lacks(stamp + twice, flat, '/');
    let name = trashed_name(root, file_path, stamp);
    assert(name == stamp + twice + flat);
    let trash = join_path(root, ".scribe-trash"@);
    assert(trash.len() > 0 && trash.last() != '/') by {
        assert(".scribe-trash"@.len() == 13);
        assert(".scribe-trash"@.last() == 'h');
        if root.len() == 0 || root.last() == '/' {
            assert(trash == root + ".scribe-trash"@);
            assert(trash.last() == 'h');
        } else {
            assert(trash == root + seq!['/'] + ".scribe-trash"@);
            assert(trash.last() == 'h');
        }
    }
    if name.len() > 0 {
        assert(name[0] != '/');
    }
}

/// `u` right after a deletion undoes that deletion: it asks to move the
/// trashed file back to the very path it was deleted from.
pub proof fn undo_after_delete(
    old: App,
    path: Seq<char>,
    trashed: Seq<char>,
    rel: Seq<char>,
    walked: Seq<NoteEntry>,
    bodies: Seq<(String, String)>,
    deleted: App,
    press: KeyPress,
    next: App,
    eff: Effect,
)
    requires
        old.pending == Pending::Idle,
        took_deletion(old, path, trashed, rel, walked, bodies, deleted),
        press.key == Key::Char('u'),
        normal_step(deleted, press, next, eff),
    ensures
        eff matches Effect::Restore { trashed: t, original, display } && t@ == trashed && original@
            == path && display@ == rel,
        next == deleted,
{
}

/// A document deleted now lands directly in the trash directory: its
/// trashed name, made with a time stamp of chrono's shape, holds no `/` and
/// is not empty.
pub proof fn deletion_lands_in_trash(root: Seq<char>, file_path: Seq<char>, stamp: Seq<char>)
    requires
        is_stamp_text(stamp),
    ensures
        !trashed_name(root, file_path, stamp).contains('/'),
        trashed_name(root, file_path, stamp).len() > 0,
        join_path(join_path(root, ".scribe-trash"@), trashed_name(root, file_path, stamp))
            == join_path(root, ".scribe-trash"@) + seq!['/'] + trashed_name(root, file_path, stamp),
{
    stamp_has_no_slash(stamp);
    trash_is_flat(root, file_path, stamp);
    let rel = match crate::paths::path_without_prefix(file_path, root) {
        Some(r) => r,
        None => file_path,
    };
    let flat = replace_all(replace_all(rel, seq!['/'], seq!['_', '_']), seq!['\\'], seq!['_', '_']);
    assert(trashed_name(root, file_path, stamp) == stamp + seq!['_', '_'] + flat);
}

/// `a` is `b` reordered: each position of `a` holds the entry at its own
/// position of `b`, no two positions of `a` taking the same one.
pub open spec fn is_reordering(a: Seq<NoteEntry>, b: Seq<NoteEntry>) -> bool {
    &&& a.len() == b.len()
    &&& exists|q: Seq<int>|
        #![trigger q.len()]
        q.len() == a.len() && (forall|i: int| 0 <= i < q.len() ==> 0 <= #[trigger] q[i] < b.len() && a[i] == b[q[i]])
            && (forall|i: int, j: int| 0 <= i < j < q.len() ==> #[trigger] q[i] != #[trigger] q[j])
}

/// The sort mode only reorders a listing: sorting the same entries by any
/// two modes gives the same entries, in another order.
pub proof fn sort_mode_only_reorders(
    input: Seq<NoteEntry>,
    m1: SortMode,
    p1: Seq<int>,
    o1: Seq<NoteEntry>,
    m2: SortMode,
    p2: Seq<int>,
    o2: Seq<NoteEntry>,
)
    requires
        is_stable_sort(m1, input, p1, o1),
        is_stable_sort(m2, input, p2, o2),
    ensures
        is_reordering(o2, o1),
{
    let n = input.len();
    let q = Seq::new(n, |i: int| choose|k: int| 0 <= k < n && p1[k] == p2[i]);
    assert forall|i: int| 0 <= i < q.len() implies 0 <= #[trigger] q[i] < o1.len() && o2[i] == o1[q[i]] by {
        assert(0 <= p2[i] < n);
        assert(p1.contains(p2[i]));
    }
    assert forall|i: int, j: int| 0 <= i < j < q.len() implies #[trigger] q[i] != #[trigger] q[j] by {
        assert(0 <= p2[i] < n && 0 <= p2[j] < n);
        assert(p1.contains(p2[i]));
        assert(p1.contains(p2[j]));
        assert(p2[i] != p2[j]);
    }
    assert(q.len() == o2.len());
}

/// The listing's flags only widen it, entry by entry: an AsciiDoc-only
/// walk keeps nothing the walk of all files leaves out, a recursive walk
/// keeps every file the flat one keeps, and only a recursive walk enters a
/// directory.
pub proof fn walk_flags_only_widen(name: Seq<char>, is_dir: bool, is_file: bool, only_adoc: bool, recursive: bool)
    ensures
        walk_decision(name, is_dir, is_file, true, recursive) == WalkStep::Keep ==> walk_decision(
            name,
            is_dir,
            is_file,
            false,
            recursive,
        ) == WalkStep::Keep,
        walk_decision(name, is_dir, is_file, only_adoc, false) == WalkStep::Keep ==> walk_decision(
            name,
            is_dir,
            is_file,
            only_adoc,
            true,
        ) == WalkStep::Keep,
        walk_decision(name, is_dir, is_file, only_adoc, false) != WalkStep::Descend,
{
}

proof fn lemma_body_found(index: Seq<(String, String)>, key: Seq<char>, k: int)
    requires
        0 <= k < index.len(),
        index[k].0@ == key,
        forall|j: int| 0 <= j < k ==> #[trigger] index[j].0@ != key,
    ensures
        body_text(index, key) == Some(index[k].1@),
    decreases k,
{
    if k > 0 {
        assert(index[0].0@ != key);
        let rest = index.drop_first();
        assert forall|j: int| 0 <= j < k - 1 implies #[trigger] rest[j].0@ != key by {
            assert(rest[j] == index[j + 1]);
        }
        lemma_body_found(rest, key, k - 1);
    }
}

proof fn lemma_body_absent(index: Seq<(String, String)>, key: Seq<char>)
    requires
        forall|j: int| 0 <= j < index.len() ==> #[trigger] index[j].0@ != key,
    ensures
        body_text(index, key) is None,
    decreases index.len(),
{
    if index.len() > 0 {
        let rest = index.drop_first();
        assert forall|j: int| 0 <= j < rest.len() implies #[trigger] rest[j].0@ != key by {
            assert(rest[j] == index[j + 1]);
        }
        lemma_body_absent(rest, key);
    }
}

/// A search reads each document's own text: a document whose name does not
/// match the query is shown exactly when the text indexed under its own
/// path (the first entry for that path, wherever it stands in the index)
/// matches; with no text indexed under its path it is not shown. A
/// document whose name matches is always shown.
pub proof fn search_reads_own_text(
    notes: Seq<NoteEntry>,
    index: Seq<(String, String)>,
    query: Seq<char>,
    shown: Seq<usize>,
    i: usize,
)
    requires
        query.len() > 0,
        shows_for_query(notes, index, query, shown),
        0 <= i < notes.len(),
    ensures
        crate::app::skim_score(notes[i as int].rel_path@, query) is Some ==> shown.contains(i),
        forall|k: int|
            #![trigger index[k]]
            0 <= k < index.len() && index[k].0@ == notes[i as int].rel_path@ && (forall|j: int|
                0 <= j < k ==> #[trigger] index[j].0@ != notes[i as int].rel_path@)
                && crate::app::skim_score(notes[i as int].rel_path@, query) is None ==> (shown.contains(i)
                <==> crate::app::skim_score(index[k].1@, query) is Some),
        (forall|j: int| 0 <= j < index.len() ==> #[trigger] index[j].0@ != notes[i as int].rel_path@)
            && crate::app::skim_score(notes[i as int].rel_path@, query) is None ==> !shown.contains(i),
{
    let scores = Seq::new(notes.len(), |j: int| crate::app::note_score(notes, index, query, j));
    assert(is_ranking(scores, shown));
    let name = notes[i as int].rel_path@;
    assert(scores[i as int] == crate::app::note_score(notes, index, query, i as int));
    // shown exactly when scored
    assert(shown.contains(i) <==> scores[i as int] is Some) by {
        if shown.contains(i) {
            let k = choose|k: int| 0 <= k < shown.len() && shown[k] == i;
            assert(scores[shown[k] as int] is Some);
        }
    }
    assert forall|k: int|
        #![trigger index[k]]
        0 <= k < index.len() && index[k].0@ == name && (forall|j: int|
            0 <= j < k ==> #[trigger] index[j].0@ != name) && crate::app::skim_score(name, query) is None
        implies (shown.contains(i) <==> crate::app::skim_score(index[k].1@, query) is Some) by {
        lemma_body_found(index, name, k);
    }
    if forall|j: int| 0 <= j < index.len() ==> #[trigger] index[j].0@ != name {
        lemma_body_absent(index, name);
    }
}

/// An AsciiDoc-only walk keeps a file exactly when it is not hidden and its
/// name, ASCII-lower-cased, ends in `.adoc` or `.asciidoc`: `.doc`, `.txt`
/// or `.md` files are left out.
pub proof fn asciidoc_walk_keeps_exactly_asciidoc(name: Seq<char>, recursive: bool)
    ensures
        walk_decision(name, false, true, true, recursive) == WalkStep::Keep <==> (!(name.len() > 0
            && name[0] == '.') && ((name.len() >= 5 && lower(name).subrange(
            name.len() - 5,
            name.len() as int,
        ) == seq!['.', 'a', 'd', 'o', 'c']) || (name.len() >= 9 && lower(name).subrange(
            name.len() - 9,
            name.len() as int,
        ) == seq!['.', 'a', 's', 'c', 'i', 'i', 'd', 'o', 'c']))),
{
    let l = lower(name);
    assert(l.len() == name.len());
    let a = seq!['.', 'a', 'd', 'o', 'c'];
    let b = seq!['.', 'a', 's', 'c', 'i', 'i', 'd', 'o', 'c'];
    assert(crate::notes::adoc_suffix() == a);
    assert(crate::notes::asciidoc_suffix() == b);
    if name.len() >= 5 {
        assert(a.is_suffix_of(l) <==> l.subrange(name.len() - 5, name.len() as int) == a);
    }
    if name.len() >= 9 {
        assert(b.is_suffix_of(l) <==> l.subrange(name.len() - 9, name.len() as int) == b);
    }
}

/// The export chord: with `e` pending and a document highlighted, `h` asks
/// to export that document to HTML and `p` to PDF; the chord is then over.
pub proof fn export_chord_formats(old: App, press: KeyPress, new: App, eff: Effect)
    requires
        old.pending == Pending::Export,
        selected_full_path(old) is Some,
        normal_step(old, press, new, eff),
    ensures
        press.key == Key::Char('h') ==> (eff matches Effect::Export { path, format } && path@
            == selected_full_path(old)->0 && format == ExportFormat::Html),
        press.key == Key::Char('p') ==> (eff matches Effect::Export { path, format } && path@
            == selected_full_path(old)->0 && format == ExportFormat::Pdf),
        press.key == Key::Char('h') || press.key == Key::Char('p') ==> new.pending == Pending::Idle,
{
}

/// Deletions stamped differently get different trash entries: for one
/// document, the trashed path determines the time stamp it was made with.
pub proof fn trash_entries_follow_stamps(root: Seq<char>, file_path: Seq<char>, s1: Seq<char>, s2: Seq<char>)
    requires
        join_path(join_path(root, ".scribe-trash"@), trashed_name(root, file_path, s1)) == join_path(
            join_path(root, ".scribe-trash"@),
            trashed_name(root, file_path, s2),
        ),
        !s1.contains('/'),
        !s2.contains('/'),
    ensures
        s1 == s2,
{
    trash_is_flat(root, file_path, s1);
    trash_is_flat(root, file_path, s2);
    let t = join_path(root, ".scribe-trash"@);
    let n1 = trashed_name(root, file_path, s1);
    let n2 = trashed_name(root, file_path, s2);
    let p1 = t + seq!['/'] + n1;
    let p2 = t + seq!['/'] + n2;
    assert(n1 =~= p1.skip(t.len() as int + 1));
    assert(n2 =~= p2.skip(t.len() as int + 1));
    let rel = match crate::paths::path_without_prefix(file_path, root) {
        Some(r) => r,
        None => file_path,
    };
    let tail = seq!['_', '_'] + replace_all(replace_all(rel, seq!['/'], seq!['_', '_']), seq!['\\'], seq!['_', '_']);
    assert(n1 =~= s1 + tail);
    assert(n2 =~= s2 + tail);
    assert(s1 =~= n1.take(s1.len() as int));
    assert(s2 =~= n2.take(s2.len() as int));
}

} // verus!
