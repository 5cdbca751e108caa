//! Documents on disk: names, extensions, the sorted listing, sizes and titles.
use vstd::prelude::*;
use vstd::string::*;
use crate::paths::{home_dir, join, join_chars, join_path, path_without_prefix, strip_path_prefix};
use crate::text::{digits_in, is_digit, is_year_text, copy_chars, has_prefix, prefix_upto, suffix_from, trim, trim_chars, trim_start, trim_start_index, chars_of, replace_all, replace_chars, decimal, decimal_chars, digit, has_suffix, is_ws, lower, lower_chars, push_all, string_of};

verus! {

/// AsciiDoc file extension recognised by Scribe.
pub const ADOC_EXT: &'static str = "adoc";

/// How to sort the document list.
#[derive(Clone, Copy, Debug, PartialEq, Eq, Structural)]
pub enum SortMode {
    NameAsc,
    MtimeDesc,
    MtimeAsc,
    SizeDesc,
}

/// The short label of a sort mode.
pub open spec fn sort_label(m: SortMode) -> Seq<char> {
    match m {
        SortMode::NameAsc => "name"@,
        SortMode::MtimeDesc => "modified ↓"@,
        SortMode::MtimeAsc => "modified ↑"@,
        SortMode::SizeDesc => "size ↓"@,
    }
}

impl SortMode {
    /// The short label shown in the list title.
    pub fn label(self) -> (r: &'static str)
        ensures
            r@ == sort_label(self),
    {
        match self {
            SortMode::NameAsc => "name",
            SortMode::MtimeDesc => "modified ↓",
            SortMode::MtimeAsc => "modified ↑",
            SortMode::SizeDesc => "size ↓",
        }
    }

    pub open spec fn spec_next(self) -> SortMode {
        match self {
            SortMode::NameAsc => SortMode::MtimeDesc,
            SortMode::MtimeDesc => SortMode::MtimeAsc,
            SortMode::MtimeAsc => SortMode::SizeDesc,
            SortMode::SizeDesc => SortMode::NameAsc,
        }
    }

    /// The mode that the `s` key switches to: name, then newest first, then
    /// oldest first, then largest first, and round again.
    pub fn next(self) -> (r: SortMode)
        ensures
            r == self.spec_next(),
    {
        match self {
            SortMode::NameAsc => SortMode::MtimeDesc,
            SortMode::MtimeDesc => SortMode::MtimeAsc,
            SortMode::MtimeAsc => SortMode::SizeDesc,
            SortMode::SizeDesc => SortMode::NameAsc,
        }
    }
}

/// Cycling the sort mode four times comes back to where it started, and no
/// fewer steps do.
pub proof fn sort_mode_cycle(m: SortMode)
    ensures
        m.spec_next().spec_next().spec_next().spec_next() == m,
        m.spec_next() != m,
        m.spec_next().spec_next() != m,
        m.spec_next().spec_next().spec_next() != m,
{
}

pub open spec fn adoc_suffix() -> Seq<char> {
    seq!['.', 'a', 'd', 'o', 'c']
}

pub open spec fn asciidoc_suffix() -> Seq<char> {
    seq!['.', 'a', 's', 'c', 'i', 'i', 'd', 'o', 'c']
}

/// A name that ends in `.adoc` or `.asciidoc`, in any mix of ASCII case.
pub open spec fn is_adoc_name(name: Seq<char>) -> bool {
    adoc_suffix().is_suffix_of(lower(name)) || asciidoc_suffix().is_suffix_of(lower(name))
}

fn adoc_suffix_chars() -> (v: Vec<char>)
    ensures
        v@ == adoc_suffix(),
{
    let mut v = vec!['.'];
    push_all(&mut v, &chars_of(ADOC_EXT));
    proof {
        reveal_strlit("adoc");
        assert(v@ =~= adoc_suffix());
    }
    v
}

fn asciidoc_suffix_chars() -> (v: Vec<char>)
    ensures
        v@ == asciidoc_suffix(),
{
    let v = vec!['.', 'a', 's', 'c', 'i', 'i', 'd', 'o', 'c'];
    assert(v@ =~= asciidoc_suffix());
    v
}

fn is_adoc_chars(name: &Vec<char>) -> (r: bool)
    ensures
        r == is_adoc_name(name@),
{
    let lowered = lower_chars(name);
    has_suffix(&lowered, &adoc_suffix_chars()) || has_suffix(&lowered, &asciidoc_suffix_chars())
}

/// Recognised AsciiDoc filename?
pub fn is_adoc_filename(name: &str) -> (r: bool)
    ensures
        r == is_adoc_name(name@),
{
    is_adoc_chars(&chars_of(name))
}

/// `name` ending in the literal `.adoc`: kept when it already does, else
/// with `.adoc` appended.
pub open spec fn ensured_adoc(name: Seq<char>) -> Seq<char> {
    if adoc_suffix().is_suffix_of(name) {
        name
    } else {
        name + adoc_suffix()
    }
}

/// Ensure `name` ends with `.adoc`, appending it if missing.
pub fn ensure_adoc_extension(name: &str) -> (r: String)
    ensures
        r@ == ensured_adoc(name@),
        adoc_suffix().is_suffix_of(r@),
{
    let mut v = chars_of(name);
    if !has_suffix(&v, &adoc_suffix_chars()) {
        push_all(&mut v, &adoc_suffix_chars());
        proof {
            let e = name@ + adoc_suffix();
            assert(e.subrange(e.len() - 5, e.len() as int) =~= adoc_suffix());
        }
    }
    string_of(&v)
}

pub open spec fn stripped_adoc(name: Seq<char>) -> Seq<char> {
    if adoc_suffix().is_suffix_of(name) {
        name.take(name.len() - 5)
    } else if asciidoc_suffix().is_suffix_of(name) {
        name.take(name.len() - 9)
    } else {
        name
    }
}

/// Strip a trailing `.adoc`/`.asciidoc` extension to recover a title.
/// Unlike [`ensure_adoc_extension`], only the lower-case extensions count.
pub fn strip_adoc_extension(name: &str) -> (r: &str)
    ensures
        r@ == stripped_adoc(name@),
{
    let v = chars_of(name);
    let n = name.unicode_len();
    if has_suffix(&v, &adoc_suffix_chars()) {
        name.substring_char(0, n - 5)
    } else if has_suffix(&v, &asciidoc_suffix_chars()) {
        name.substring_char(0, n - 9)
    } else {
        name
    }
}

/// Adding the extension always yields a name ending in the literal `.adoc`
/// (so a recognised AsciiDoc name), adding it twice changes nothing more,
/// and stripping what was added gives the name back.
pub proof fn adoc_extension_laws(name: Seq<char>)
    ensures
        adoc_suffix().is_suffix_of(ensured_adoc(name)),
        is_adoc_name(ensured_adoc(name)),
        ensured_adoc(ensured_adoc(name)) == ensured_adoc(name),
        !adoc_suffix().is_suffix_of(name) ==> stripped_adoc(ensured_adoc(name)) == name,
{
    let e = ensured_adoc(name);
    if !adoc_suffix().is_suffix_of(name) {
        assert(e.subrange(e.len() - 5, e.len() as int) =~= adoc_suffix());
        assert(e.take(e.len() - 5) =~= name);
    }
    assert(e.subrange(e.len() - 5, e.len() as int) =~= adoc_suffix());
    assert(lower(e).subrange(e.len() - 5, e.len() as int) =~= adoc_suffix());
}


pub open spec fn pow2(e: nat) -> nat
    decreases e,
{
    if e == 0 {
        1
    } else {
        2 * pow2((e - 1) as nat)
    }
}

/// How many low-order bits of `n` do not fit in the 53-bit significand of an
/// `f64`.
pub open spec fn excess_bits(n: nat) -> nat
    decreases n,
{
    if n < 0x20_0000_0000_0000 {
        0
    } else {
        1 + excess_bits(n / 2)
    }
}

/// `q`, or `q + 1` when the dropped remainder `r` (out of `d`) is more than
/// half, or exactly half and `q` is odd: rounding half to even.
pub open spec fn round_half_even(q: nat, r: nat, d: nat) -> nat {
    if 2 * r > d || (2 * r == d && q % 2 == 1) {
        q + 1
    } else {
        q
    }
}

/// The value of `n as f64`: `n` rounded to the nearest number with a 53-bit
/// significand, ties to even.
pub open spec fn as_f64(n: nat) -> nat {
    let p = pow2(excess_bits(n));
    round_half_even(n / p, n % p, p) * p
}

/// `v / d` to one decimal place, as a count of tenths, rounded half to even
/// as `{:.1}` formatting rounds an exact binary fraction.
pub open spec fn tenths(v: nat, d: nat) -> nat {
    round_half_even((10 * v) / d, (10 * v) % d, d)
}

/// A count of tenths written with one decimal place ("12.5").
pub open spec fn one_decimal(t: nat) -> Seq<char> {
    decimal(t / 10) + seq!['.', digit(t % 10)]
}

/// Human-friendly byte size: whole bytes below 1 KiB, then KiB or MiB with
/// one decimal place.
pub open spec fn size_text(n: nat) -> Seq<char> {
    if n >= 1024 * 1024 {
        one_decimal(tenths(as_f64(n), 1024 * 1024)) + seq!['M']
    } else if n >= 1024 {
        one_decimal(tenths(n, 1024)) + seq!['K']
    } else {
        decimal(n) + seq!['B']
    }
}

fn round_half_even_exec(q: u128, r: u128, d: u128) -> (out: u128)
    requires
        q < u128::MAX,
        r < d,
        d < 0x1000_0000_0000_0000_0000_0000_0000_0000,
    ensures
        out == round_half_even(q as nat, r as nat, d as nat),
{
    if 2 * r > d || (2 * r == d && q % 2 == 1) {
        q + 1
    } else {
        q
    }
}

/// `n as f64`, computed exactly in integers.
fn as_f64_exact(n: u64) -> (out: u128)
    ensures
        out == as_f64(n as nat),
        out <= 0x2_0000_0000_0000_0000,
{
    let mut m: u128 = n as u128;
    let mut r: u128 = 0;
    let mut p: u128 = 1;
    let ghost mut e: nat = 0;
    while m >= 0x20_0000_0000_0000
        invariant
            p == pow2(e),
            0 < p < 0x1000,
            m * p + r == n as nat,
            r < p,
            excess_bits(n as nat) == e + excess_bits(m as nat),
        decreases m,
    {
        assert(p < 0x800) by (nonlinear_arith)
            requires
                m >= 0x20_0000_0000_0000,
                m * p + r == n as nat,
                n < 0x1_0000_0000_0000_0000,
                r >= 0,
        ;
        let bit = m % 2;
        let half = m / 2;
        assert(m == 2 * half + bit);
        if bit == 1 {
            assert(half * (2 * p) + (r + p) == n as nat) by (nonlinear_arith)
                requires
                    m * p + r == n as nat,
                    m == 2 * half + 1,
            ;
            r = r + p;
        } else {
            assert(half * (2 * p) + r == n as nat) by (nonlinear_arith)
                requires
                    m * p + r == n as nat,
                    m == 2 * half,
            ;
        }
        m = half;
        p = 2 * p;
        proof {
            e = e + 1;
        }
    }
    proof {
        vstd::arithmetic::div_mod::lemma_fundamental_div_mod_converse(
            n as int,
            p as int,
            m as int,
            r as int,
        );
    }
    let rounded = round_half_even_exec(m, r, p);
    assert(rounded * p <= 0x20_0000_0000_0000 * 0x1000) by (nonlinear_arith)
        requires
            rounded <= 0x20_0000_0000_0000,
            p < 0x1000,
    ;
    rounded * p
}

/// Human-friendly byte size.
pub fn fmt_size(n: u64) -> (r: String)
    ensures
        r@ == size_text(n as nat),
{
    let mut out: Vec<char>;
    if n >= 1024 * 1024 {
        let v = as_f64_exact(n);
        let t = round_half_even_exec((10 * v) / 1048576, (10 * v) % 1048576, 1048576);
        out = decimal_chars(t / 10);
        out.push('.');
        out.push(((t % 10) as u8 + 48u8) as char);
        out.push('M');
    } else if n >= 1024 {
        let v = n as u128;
        let t = round_half_even_exec((10 * v) / 1024, (10 * v) % 1024, 1024);
        out = decimal_chars(t / 10);
        out.push('.');
        out.push(((t % 10) as u8 + 48u8) as char);
        out.push('K');
    } else {
        out = decimal_chars(n as u128);
        out.push('B');
    }
    string_of(&out)
}


/// Single entry of the document listing.
#[derive(Clone, Debug)]
pub struct NoteEntry {
    /// Path relative to the listing root (e.g. `projects/foo.adoc`).
    pub rel_path: String,
    /// File modification time in nanoseconds since the Unix epoch (negative
    /// before it), if known.
    pub mtime: Option<i128>,
    /// File size in bytes.
    pub size: u64,
}

impl NoteEntry {
    /// A field-for-field copy.
    pub fn duplicate(&self) -> (r: NoteEntry)
        ensures
            r == *self,
    {
        NoteEntry { rel_path: self.rel_path.clone(), mtime: self.mtime, size: self.size }
    }
}

/// Strict lexicographic order on texts, character by character; this is the
/// order of `String`'s `Ord`, since UTF-8 keeps the order of code points.
pub open spec fn lex_lt(a: Seq<char>, b: Seq<char>) -> bool
    decreases a.len(),
{
    if a.len() == 0 {
        b.len() > 0
    } else if b.len() == 0 {
        false
    } else if a[0] != b[0] {
        a[0] < b[0]
    } else {
        lex_lt(a.drop_first(), b.drop_first())
    }
}

pub proof fn lex_lt_irreflexive(a: Seq<char>)
    ensures
        !lex_lt(a, a),
    decreases a.len(),
{
    if a.len() > 0 {
        lex_lt_irreflexive(a.drop_first());
    }
}

pub proof fn lex_lt_transitive(a: Seq<char>, b: Seq<char>, c: Seq<char>)
    requires
        lex_lt(a, b),
        lex_lt(b, c),
    ensures
        lex_lt(a, c),
    decreases a.len(),
{
    if a.len() > 0 && b.len() > 0 && c.len() > 0 && a[0] == b[0] && b[0] == c[0] {
        lex_lt_transitive(a.drop_first(), b.drop_first(), c.drop_first());
    }
}

pub proof fn lex_lt_total(a: Seq<char>, b: Seq<char>)
    ensures
        lex_lt(a, b) || lex_lt(b, a) || a == b,
    decreases a.len(),
{
    if a.len() > 0 && b.len() > 0 && a[0] == b[0] {
        lex_lt_total(a.drop_first(), b.drop_first());
        if a.drop_first() == b.drop_first() {
            assert(a =~= seq![a[0]] + a.drop_first());
            assert(b =~= seq![b[0]] + b.drop_first());
        }
    } else if a.len() == 0 && b.len() == 0 {
        assert(a =~= b);
    } else if a.len() > 0 && b.len() > 0 {
        assert(a[0] < b[0] || b[0] < a[0]);
    }
}

/// The rank of a modification time: an unknown time comes before every known
/// one, as `None` does in `Option`'s order.
pub open spec fn mtime_rank(m: Option<i128>) -> int {
    match m {
        None => i128::MIN - 1,
        Some(t) => t as int,
    }
}

/// Whether `a` sorts strictly before `b` under `mode`.
pub open spec fn sorts_before(mode: SortMode, a: NoteEntry, b: NoteEntry) -> bool {
    match mode {
        SortMode::NameAsc => lex_lt(a.rel_path@, b.rel_path@),
        SortMode::MtimeDesc => mtime_rank(b.mtime) < mtime_rank(a.mtime),
        SortMode::MtimeAsc => mtime_rank(a.mtime) < mtime_rank(b.mtime),
        SortMode::SizeDesc => b.size < a.size,
    }
}

/// Where the entry at position `i` of `s` goes before the one at `j` in a
/// stable sort: by the mode's key, and among equal keys by position.
pub open spec fn placed_before(mode: SortMode, s: Seq<NoteEntry>, i: int, j: int) -> bool {
    sorts_before(mode, s[i], s[j]) || (!sorts_before(mode, s[j], s[i]) && i < j)
}

/// `out` is `input` reordered by the permutation `perm` (`out[i]` is
/// `input[perm[i]]`) into the order of a stable sort under `mode`.
pub open spec fn is_stable_sort(
    mode: SortMode,
    input: Seq<NoteEntry>,
    perm: Seq<int>,
    out: Seq<NoteEntry>,
) -> bool {
    &&& perm.len() == input.len()
    &&& out.len() == input.len()
    &&& forall|i: int| 0 <= i < perm.len() ==> 0 <= #[trigger] perm[i] < input.len()
    &&& forall|i: int| 0 <= i < perm.len() ==> #[trigger] out[i] == input[perm[i]]
    &&& forall|i: int, j: int|
        0 <= i < j < perm.len() ==> placed_before(mode, input, #[trigger] perm[i], #[trigger] perm[j])
    &&& forall|i: int, j: int| 0 <= i < j < perm.len() ==> #[trigger] perm[i] != #[trigger] perm[j]
    &&& forall|j: int| 0 <= j < input.len() ==> #[trigger] perm.contains(j)
}

proof fn sorts_before_transitive(mode: SortMode, a: NoteEntry, b: NoteEntry, c: NoteEntry)
    requires
        sorts_before(mode, a, b),
        sorts_before(mode, b, c),
    ensures
        sorts_before(mode, a, c),
{
    if mode == SortMode::NameAsc {
        lex_lt_transitive(a.rel_path@, b.rel_path@, c.rel_path@);
    }
}

/// Not sorting after is sorting before or tying, and ties are an equivalence.
pub(crate) proof fn sorts_before_weak(mode: SortMode, a: NoteEntry, b: NoteEntry, c: NoteEntry)
    ensures
        sorts_before(mode, a, b) ==> !sorts_before(mode, b, a),
        !sorts_before(mode, a, b) && !sorts_before(mode, b, a) && sorts_before(mode, b, c)
            ==> sorts_before(mode, a, c),
        !sorts_before(mode, a, b) && !sorts_before(mode, b, a) && sorts_before(mode, c, b)
            ==> sorts_before(mode, c, a),
{
    if mode == SortMode::NameAsc {
        lex_lt_total(a.rel_path@, b.rel_path@);
        if sorts_before(mode, a, b) && sorts_before(mode, b, a) {
            lex_lt_transitive(a.rel_path@, b.rel_path@, a.rel_path@);
            lex_lt_irreflexive(a.rel_path@);
        }
    }
}

proof fn placed_before_transitive(mode: SortMode, s: Seq<NoteEntry>, i: int, j: int, k: int)
    requires
        0 <= i < s.len(),
        0 <= j < s.len(),
        0 <= k < s.len(),
        placed_before(mode, s, i, j),
        placed_before(mode, s, j, k),
    ensures
        placed_before(mode, s, i, k),
{
    sorts_before_weak(mode, s[i], s[j], s[k]);
    sorts_before_weak(mode, s[j], s[k], s[i]);
    sorts_before_weak(mode, s[k], s[i], s[j]);
    sorts_before_weak(mode, s[i], s[k], s[j]);
    sorts_before_weak(mode, s[j], s[i], s[k]);
    sorts_before_weak(mode, s[k], s[j], s[i]);
    if sorts_before(mode, s[i], s[j]) && sorts_before(mode, s[j], s[k]) {
        sorts_before_transitive(mode, s[i], s[j], s[k]);
    }
}

/// Whether the entry `a` goes strictly before `b` under `mode`.
fn entry_before(mode: SortMode, a: &NoteEntry, a_name: &Vec<char>, b: &NoteEntry, b_name: &Vec<char>) -> (r: bool)
    requires
        a_name@ == a.rel_path@,
        b_name@ == b.rel_path@,
    ensures
        r == sorts_before(mode, *a, *b),
{
    match mode {
        SortMode::NameAsc => chars_lex_lt(a_name, b_name),
        SortMode::MtimeDesc => mtime_lt(b.mtime, a.mtime),
        SortMode::MtimeAsc => mtime_lt(a.mtime, b.mtime),
        SortMode::SizeDesc => b.size < a.size,
    }
}

fn mtime_lt(a: Option<i128>, b: Option<i128>) -> (r: bool)
    ensures
        r == (mtime_rank(a) < mtime_rank(b)),
{
    match (a, b) {
        (None, None) => false,
        (None, Some(_)) => true,
        (Some(_), None) => false,
        (Some(x), Some(y)) => x < y,
    }
}

fn chars_lex_lt(a: &Vec<char>, b: &Vec<char>) -> (r: bool)
    ensures
        r == lex_lt(a@, b@),
{
    let mut i: usize = 0;
    assert(a@.skip(0) =~= a@);
    assert(b@.skip(0) =~= b@);
    while i < a.len() && i < b.len() && a[i] == b[i]
        invariant
            i <= a.len(),
            i <= b.len(),
            lex_lt(a@, b@) == lex_lt(a@.skip(i as int), b@.skip(i as int)),
        decreases a.len() - i,
    {
        assert(a@.skip(i as int).drop_first() =~= a@.skip(i + 1));
        assert(b@.skip(i as int).drop_first() =~= b@.skip(i + 1));
        i += 1;
    }
    if i == a.len() {
        i < b.len()
    } else if i == b.len() {
        false
    } else {
        assert(a@.skip(i as int)[0] == a@[i as int]);
        assert(b@.skip(i as int)[0] == b@[i as int]);
        a[i] < b[i]
    }
}

/// Sort `entries` in place, stably, by `sort`.
pub fn sort_entries(entries: &mut Vec<NoteEntry>, sort: SortMode)
    ensures
        exists|perm: Seq<int>| is_stable_sort(sort, old(entries)@, perm, final(entries)@),
{
    let n = entries.len();
    let mut names: Vec<Vec<char>> = Vec::new();
    let mut k: usize = 0;
    while k < n
        invariant
            k <= n == entries.len(),
            names@.len() == k,
            forall|i: int| 0 <= i < k ==> (#[trigger] names@[i])@ == entries@[i].rel_path@,
        decreases n - k,
    {
        names.push(chars_of(entries[k].rel_path.as_str()));
        k += 1;
    }
    let ghost input = entries@;
    // Insertion sort of the positions 0..n.
    let mut order: Vec<usize> = Vec::new();
    k = 0;
    while k < n
        invariant
            k <= n == entries.len(),
            entries@ == input,
            names@.len() == n,
            forall|i: int| 0 <= i < n ==> (#[trigger] names@[i])@ == input[i].rel_path@,
            order@.len() == k,
            forall|i: int| 0 <= i < k ==> #[trigger] order@[i] < k,
            forall|j: int| 0 <= j < k ==> #[trigger] order@.contains(j as usize),
            forall|i: int, j: int| 0 <= i < j < k ==> #[trigger] order@[i] != #[trigger] order@[j],
            forall|i: int, j: int|
                0 <= i < j < k ==> placed_before(
                    sort,
                    input,
                    #[trigger] order@[i] as int,
                    #[trigger] order@[j] as int,
                ),
        decreases n - k,
    {
        let ghost before = order@;
        let mut pos: usize = k;
        while pos > 0 && entry_before(
            sort,
            &entries[k],
            &names[k],
            &entries[order[pos - 1]],
            &names[order[pos - 1]],
        )
            invariant
                pos <= k < n == entries.len(),
                entries@ == input,
                names@.len() == n,
                forall|i: int| 0 <= i < n ==> (#[trigger] names@[i])@ == input[i].rel_path@,
                order@ == before,
                before.len() == k,
                forall|i: int| 0 <= i < k ==> #[trigger] before[i] < k,
                forall|i: int| pos <= i < k ==> sorts_before(sort, input[k as int], input[#[trigger] before[i] as int]),
            decreases pos,
        {
            pos -= 1;
        }
        proof {
            if pos > 0 {
                let q = before[pos - 1] as int;
                sorts_before_weak(sort, input[k as int], input[q], input[q]);
                assert(placed_before(sort, input, q, k as int));
            }
        }
        order.insert(pos, k);
        proof {
            assert forall|j: int| 0 <= j < k + 1 implies #[trigger] order@.contains(j as usize) by {
                if j < k {
                    assert(before.contains(j as usize));
                    let q = choose|q: int| 0 <= q < before.len() && before[q] == j as usize;
                    if q < pos {
                        assert(order@[q] == before[q]);
                    } else {
                        assert(order@[q + 1] == before[q]);
                    }
                } else {
                    assert(order@[pos as int] == k);
                }
            }
            assert forall|i: int| 0 <= i < k + 1 implies #[trigger] order@[i] < k + 1 by {
                if i < pos {
                    assert(order@[i] == before[i]);
                } else if i > pos {
                    assert(order@[i] == before[i - 1]);
                }
            }
            assert forall|i: int, j: int| 0 <= i < j < k + 1 implies #[trigger] order@[i] != #[trigger] order@[j] by {
                if i < pos && j > pos {
                    assert(order@[j] == before[j - 1]);
                } else if i > pos {
                    assert(order@[i] == before[i - 1]);
                    assert(order@[j] == before[j - 1]);
                } else if j < pos {
                } else if i == pos {
                    assert(order@[j] == before[j - 1]);
                } else {
                    assert(order@[i] == before[i]);
                }
            }
            assert forall|i: int, j: int| 0 <= i < j < k + 1 implies placed_before(
                sort,
                input,
                #[trigger] order@[i] as int,
                #[trigger] order@[j] as int,
            ) by {
                let kk = k as int;
                if j < pos {
                    assert(order@[i] == before[i] && order@[j] == before[j]);
                } else if i > pos {
                    assert(order@[i] == before[i - 1] && order@[j] == before[j - 1]);
                } else if i == pos {
                    assert(order@[j] == before[j - 1]);
                    assert(sorts_before(sort, input[kk], input[before[j - 1] as int]));
                } else if j == pos {
                    assert(order@[i] == before[i]);
                    if i < pos - 1 {
                        placed_before_transitive(sort, input, before[i] as int, before[pos - 1] as int, kk);
                    }
                } else {
                    assert(order@[i] == before[i] && order@[j] == before[j - 1]);
                    if i < pos - 1 {
                        placed_before_transitive(sort, input, before[i] as int, before[pos - 1] as int, kk);
                    }
                    placed_before_transitive(sort, input, before[i] as int, kk, before[j - 1] as int);
                }
            }
        }
        k += 1;
    }
    let mut out: Vec<NoteEntry> = Vec::new();
    let ghost final_order = order@;
    k = 0;
    while k < n
        invariant
            k <= n == entries.len(),
            entries@ == input,
            order@ == final_order,
            order@.len() == n,
            forall|i: int| 0 <= i < n ==> #[trigger] order@[i] < n,
            out@.len() == k,
            forall|i: int| 0 <= i < k ==> #[trigger] out@[i] == input[order@[i] as int],
        decreases n - k,
    {
        out.push(entries[order[k]].duplicate());
        k += 1;
    }
    *entries = out;
    let ghost perm = Seq::new(n as nat, |i: int| order@[i] as int);
    assert forall|j: int| 0 <= j < input.len() implies #[trigger] perm.contains(j) by {
        assert(final_order.contains(j as usize));
        let q = choose|q: int| 0 <= q < final_order.len() && final_order[q] == j as usize;
        assert(perm[q] == j);
    }
    assert(is_stable_sort(sort, input, perm, entries@));
}

/// Sort a freshly walked listing by `sort`: the part of the listing that does
/// not touch the disk.
pub fn list_notes(entries: Vec<NoteEntry>, sort: SortMode) -> (r: Vec<NoteEntry>)
    ensures
        exists|perm: Seq<int>| is_stable_sort(sort, entries@, perm, r@),
{
    let mut entries = entries;
    sort_entries(&mut entries, sort);
    entries
}


/// Trash directory under the notes root.
pub fn trash_dir(root: &str) -> (r: String)
    ensures
        r@ == join_path(root@, ".scribe-trash"@),
{
    join(root, ".scribe-trash")
}

/// The name a trashed file gets: the time stamp, `__`, then its path below
/// the root (or its whole path, where it is not below the root) with every
/// `/` and `\` turned into `__`.
pub open spec fn trashed_name(root: Seq<char>, file_path: Seq<char>, stamp: Seq<char>) -> Seq<char> {
    let rel = match path_without_prefix(file_path, root) {
        Some(r) => r,
        None => file_path,
    };
    stamp + seq!['_', '_'] + replace_all(replace_all(rel, seq!['/'], seq!['_', '_']), seq!['\\'], seq!['_', '_'])
}

/// Where `file_path` goes when it is deleted, given the time stamp `stamp`:
/// inside the trash directory, under its [`trashed_name`].
pub fn trashed_path_with(root: &str, file_path: &str, stamp: &str) -> (r: String)
    ensures
        r@ == join_path(join_path(root@, ".scribe-trash"@), trashed_name(root@, file_path@, stamp@)),
{
    let rel = match strip_path_prefix(file_path, root) {
        Some(r) => chars_of(r.as_str()),
        None => chars_of(file_path),
    };
    let slash = vec!['/'];
    let backslash = vec!['\\'];
    let twice = vec!['_', '_'];
    assert(slash@ =~= seq!['/']);
    assert(backslash@ =~= seq!['\\']);
    assert(twice@ =~= seq!['_', '_']);
    let once = replace_chars(&rel, &slash, &twice);
    let flat = replace_chars(&once, &backslash, &twice);
    let mut name = chars_of(stamp);
    push_all(&mut name, &twice);
    push_all(&mut name, &flat);
    let trash = chars_of(trash_dir(root).as_str());
    string_of(&join_chars(&trash, &name))
}

/// Text of the shape chrono writes for `%Y%m%d-%H%M%S-%f`: a year (see
/// [`is_year_text`]), then month and day, `-`, hours, minutes and seconds,
/// `-`, and nine digits of nanoseconds.
pub open spec fn is_stamp_text(t: Seq<char>) -> bool {
    let n = t.len() as int;
    &&& n >= 25
    &&& is_year_text(t.take(n - 21))
    &&& digits_in(t, n - 21, n - 17)
    &&& t[n - 17] == '-'
    &&& digits_in(t, n - 16, n - 10)
    &&& t[n - 10] == '-'
    &&& digits_in(t, n - 9, n)
}

/// A time stamp holds no `/`: it is made of digits, `-` and a sign.
pub proof fn stamp_has_no_slash(t: Seq<char>)
    requires
        is_stamp_text(t),
    ensures
        !t.contains('/'),
{
    let n = t.len() as int;
    let y = t.take(n - 21);
    assert forall|i: int| 0 <= i < n implies t[i] != '/' by {
        if i < n - 21 {
            assert(y[i] == t[i]);
            if !(y.len() == 4 && digits_in(y, 0, 4)) && i > 0 {
                assert(is_digit(y[i]));
            } else if y.len() == 4 && digits_in(y, 0, 4) {
                assert(is_digit(y[i]));
            }
        } else if i < n - 17 {
            assert(is_digit(t[i]));
        } else if n - 17 < i < n - 10 {
            assert(is_digit(t[i]));
        } else if i > n - 10 {
            assert(is_digit(t[i]));
        }
    }
}

/// The current local time as `YYYYmmdd-HHMMSS-nnnnnnnnn` (chrono's
/// `Local::now().format("%Y%m%d-%H%M%S-%f")`). chrono writes the year as in
/// [`is_year_text`], two zero-padded digits for each of month, day, hours,
/// minutes and seconds, and `%f` as the nanoseconds modulo a second padded
/// to nine digits. Which time it is depends on the clock and the time zone
/// and is left unsaid.
#[verifier::external_body]
fn trash_stamp() -> (r: String)
    ensures
        is_stamp_text(r@),
{
    chrono::Local::now().format("%Y%m%d-%H%M%S-%f").to_string()
}

/// Where `file_path` goes when it is deleted now: its trashed name under the
/// current time stamp.
pub fn trashed_path(root: &str, file_path: &str) -> (r: String)
    ensures
        exists|stamp: Seq<char>| is_stamp_text(stamp) && r@ == join_path(join_path(root@, ".scribe-trash"@), trashed_name(root@, file_path@, stamp)),
{
    let stamp = trash_stamp();
    trashed_path_with(root, file_path, stamp.as_str())
}

/// The notes directory: an explicit override, else a non-empty
/// `$SCRIBE_DIR`, else `notes` under the home directory (when it is known
/// and valid UTF-8), else `notes`.
pub open spec fn notes_dir(
    cli_override: Option<Seq<char>>,
    env_dir: Option<Seq<char>>,
    home: Option<Seq<char>>,
) -> Seq<char> {
    if let Some(d) = cli_override {
        d
    } else if env_dir is Some && env_dir->0.len() > 0 {
        env_dir->0
    } else if let Some(h) = home {
        join_path(h, seq!['n', 'o', 't', 'e', 's'])
    } else {
        seq!['n', 'o', 't', 'e', 's']
    }
}

pub open spec fn opt_view(o: Option<&str>) -> Option<Seq<char>> {
    match o {
        Some(s) => Some(s@),
        None => None,
    }
}

/// Resolve the notes directory from the override, the value of `$SCRIBE_DIR`
/// and the home directory.
pub fn resolve_notes_dir_with(
    cli_override: Option<&str>,
    env_dir: Option<&str>,
    home: Option<&str>,
) -> (r: String)
    ensures
        r@ == notes_dir(opt_view(cli_override), opt_view(env_dir), opt_view(home)),
{
    if let Some(d) = cli_override {
        return string_of(&chars_of(d));
    }
    if let Some(d) = env_dir {
        if !d.is_empty() {
            return string_of(&chars_of(d));
        }
    }
    let notes = vec!['n', 'o', 't', 'e', 's'];
    assert(notes@ =~= seq!['n', 'o', 't', 'e', 's']);
    match home {
        Some(h) => string_of(&join_chars(&chars_of(h), &notes)),
        None => string_of(&notes),
    }
}

/// Resolve the notes directory: explicit override > `$SCRIBE_DIR` (whose
/// value the caller reads) > `~/notes` > `notes`.
pub fn resolve_notes_dir(cli_override: Option<&str>, env_dir: Option<&str>) -> (r: String)
    ensures
        exists|home: Option<Seq<char>>| r@ == notes_dir(opt_view(cli_override), opt_view(env_dir), home),
{
    match home_dir() {
        Some((h, exact)) => {
            if exact {
                resolve_notes_dir_with(cli_override, env_dir, Some(h.as_str()))
            } else {
                resolve_notes_dir_with(cli_override, env_dir, None)
            }
        },
        None => resolve_notes_dir_with(cli_override, env_dir, None),
    }
}

/// What the directory walk does with one directory entry.
#[derive(Clone, Copy, Debug, PartialEq, Eq, Structural)]
pub enum WalkStep {
    /// Leave it out.
    Skip,
    /// Walk into it.
    Descend,
    /// List it.
    Keep,
}

pub open spec fn is_noise_dir(name: Seq<char>) -> bool {
    name == "node_modules"@ || name == "target"@ || name == ".scribe-trash"@
}

/// Hidden entries are skipped; directories are walked into when listing
/// recursively, except the noise directories; other non-files are skipped;
/// files are kept, or only AsciiDoc files when `only_adoc` is set.
pub open spec fn walk_decision(
    name: Seq<char>,
    is_dir: bool,
    is_file: bool,
    only_adoc: bool,
    recursive: bool,
) -> WalkStep {
    if name.len() > 0 && name[0] == '.' {
        WalkStep::Skip
    } else if is_dir {
        if is_noise_dir(name) || !recursive {
            WalkStep::Skip
        } else {
            WalkStep::Descend
        }
    } else if !is_file {
        WalkStep::Skip
    } else if only_adoc && !is_adoc_name(name) {
        WalkStep::Skip
    } else {
        WalkStep::Keep
    }
}

pub fn walk_step(name: &str, is_dir: bool, is_file: bool, only_adoc: bool, recursive: bool) -> (r: WalkStep)
    ensures
        r == walk_decision(name@, is_dir, is_file, only_adoc, recursive),
{
    let v = chars_of(name);
    if v.len() > 0 && v[0] == '.' {
        return WalkStep::Skip;
    }
    if is_dir {
        proof {
            reveal_strlit("node_modules");
            reveal_strlit("target");
            reveal_strlit(".scribe-trash");
        }
        let noise = eq_text(&v, &chars_of("node_modules")) || eq_text(&v, &chars_of("target"))
            || eq_text(&v, &chars_of(".scribe-trash"));
        if noise || !recursive {
            return WalkStep::Skip;
        }
        return WalkStep::Descend;
    }
    if !is_file {
        return WalkStep::Skip;
    }
    if only_adoc && !is_adoc_chars(&v) {
        return WalkStep::Skip;
    }
    WalkStep::Keep
}

fn eq_text(a: &Vec<char>, b: &Vec<char>) -> (r: bool)
    ensures
        r == (a@ == b@),
{
    if a.len() != b.len() {
        return false;
    }
    let mut i: usize = 0;
    while i < a.len()
        invariant
            a.len() == b.len(),
            i <= a.len(),
            forall|j: int| 0 <= j < i ==> a@[j] == b@[j],
        decreases a.len() - i,
    {
        if a[i] != b[i] {
            return false;
        }
        i += 1;
    }
    assert(a@ =~= b@);
    true
}

/// The listing name of a file found at `path` under `root`: its path below
/// the root (its whole path where it is not below), with `\` turned into `/`.
pub open spec fn listed_name(path: Seq<char>, root: Seq<char>) -> Seq<char> {
    let rel = match path_without_prefix(path, root) {
        Some(r) => r,
        None => path,
    };
    replace_all(rel, seq!['\\'], seq!['/'])
}

pub fn note_rel_path(path: &str, root: &str) -> (r: String)
    ensures
        r@ == listed_name(path@, root@),
{
    let rel = match strip_path_prefix(path, root) {
        Some(r) => chars_of(r.as_str()),
        None => chars_of(path),
    };
    let backslash = vec!['\\'];
    let slash = vec!['/'];
    assert(backslash@ =~= seq!['\\']);
    assert(slash@ =~= seq!['/']);
    string_of(&replace_chars(&rel, &backslash, &slash))
}


/// A line without the `\r` of a `\r\n` ending.
pub open spec fn strip_cr(l: Seq<char>) -> Seq<char> {
    if l.len() > 0 && l.last() == '\r' {
        l.drop_last()
    } else {
        l
    }
}

/// The lines of `s` as `str::lines` yields them, given that the unfinished
/// line `cur` precedes it: split at `\n`, a `\r` before the `\n` dropped, and
/// no empty line after a final `\n`.
pub open spec fn lines_from(cur: Seq<char>, s: Seq<char>) -> Seq<Seq<char>>
    decreases s.len(),
{
    if s.len() == 0 {
        if cur.len() == 0 {
            Seq::empty()
        } else {
            seq![cur]
        }
    } else if s[0] == '\n' {
        seq![strip_cr(cur)] + lines_from(Seq::empty(), s.drop_first())
    } else {
        lines_from(cur.push(s[0]), s.drop_first())
    }
}

pub open spec fn lines(s: Seq<char>) -> Seq<Seq<char>> {
    lines_from(Seq::empty(), s)
}

/// The title a line gives: after leading white space, `= ` or `# ` and then
/// the rest of the line without white space at either end.
pub open spec fn title_in_line(l: Seq<char>) -> Option<Seq<char>> {
    let t = trim_start(l);
    if seq!['=', ' '].is_prefix_of(t) || seq!['#', ' '].is_prefix_of(t) {
        Some(trim(t.skip(2)))
    } else {
        None
    }
}

/// The first title given by one of the first `n` lines of `ls`.
pub open spec fn first_title_within(ls: Seq<Seq<char>>, n: nat) -> Option<Seq<char>>
    decreases ls.len(),
{
    if ls.len() == 0 || n == 0 {
        None
    } else if title_in_line(ls[0]) is Some {
        title_in_line(ls[0])
    } else {
        first_title_within(ls.drop_first(), (n - 1) as nat)
    }
}

/// The document title found in the first forty lines of `head`, if any.
pub open spec fn doc_title(head: Seq<char>) -> Option<Seq<char>> {
    first_title_within(lines(head), 40)
}

proof fn lemma_first_title_after(done: Seq<Seq<char>>, rest: Seq<Seq<char>>, n: nat)
    requires
        done.len() <= n,
        forall|i: int| 0 <= i < done.len() ==> title_in_line(#[trigger] done[i]) is None,
    ensures
        first_title_within(done + rest, n) == first_title_within(rest, (n - done.len()) as nat),
    decreases done.len(),
{
    if done.len() > 0 {
        let t = done + rest;
        assert(t[0] == done[0]);
        assert(t.drop_first() =~= done.drop_first() + rest);
        lemma_first_title_after(done.drop_first(), rest, (n - 1) as nat);
    } else {
        assert(done + rest =~= rest);
    }
}

fn title_of_line(l: &Vec<char>) -> (r: Option<Vec<char>>)
    ensures
        match r {
            Some(v) => title_in_line(l@) == Some(v@),
            None => title_in_line(l@) is None,
        },
{
    let k = trim_start_index(l);
    let t = suffix_from(l, k);
    let eq_sp = vec!['=', ' '];
    let hash_sp = vec!['#', ' '];
    assert(eq_sp@ =~= seq!['=', ' ']);
    assert(hash_sp@ =~= seq!['#', ' ']);
    if has_prefix(&t, &eq_sp) || has_prefix(&t, &hash_sp) {
        let rest = suffix_from(&t, 2);
        Some(trim_chars(&rest))
    } else {
        None
    }
}

fn strip_cr_chars(l: &Vec<char>) -> (out: Vec<char>)
    ensures
        out@ == strip_cr(l@),
{
    if l.len() > 0 && l[l.len() - 1] == '\r' {
        prefix_upto(l, l.len() - 1)
    } else {
        copy_chars(l)
    }
}

/// Pull the first AsciiDoc title (`= Title`, or a Markdown-style `# Title`)
/// from the head of a file, looking at no more than its first forty lines.
pub fn first_title(head: &str) -> (r: Option<String>)
    ensures
        match r {
            Some(t) => doc_title(head@) == Some(t@),
            None => doc_title(head@) is None,
        },
{
    let s = chars_of(head);
    let mut cur: Vec<char> = Vec::new();
    let ghost mut done: Seq<Seq<char>> = Seq::empty();
    let mut count: usize = 0;
    let mut i: usize = 0;
    assert(s@.skip(0) =~= s@);
    assert(Seq::<Seq<char>>::empty() + lines(s@) =~= lines(s@));
    while i < s.len()
        invariant
            i <= s.len(),
            s@ == head@,
            count == done.len(),
            count < 40,
            forall|j: int| 0 <= j < done.len() ==> title_in_line(#[trigger] done[j]) is None,
            lines(s@) == done + lines_from(cur@, s@.skip(i as int)),
        decreases s.len() - i,
    {
        let ghost rest = s@.skip(i as int);
        assert(rest[0] == s@[i as int]);
        assert(rest.drop_first() =~= s@.skip(i + 1));
        if s[i] == '\n' {
            let line = strip_cr_chars(&cur);
            let ghost after = lines_from(Seq::empty(), s@.skip(i + 1));
            proof {
                assert(done + lines_from(cur@, rest) =~= done.push(line@) + after);
                lemma_first_title_after(done, lines_from(cur@, rest), 40);
            }
            match title_of_line(&line) {
                Some(t) => {
                    proof {
                        let r = lines_from(cur@, rest);
                        assert(r =~= seq![line@] + after);
                        assert(r[0] == line@);
                    }
                    return Some(string_of(&t));
                },
                None => {},
            }
            proof {
                done = done.push(line@);
            }
            count += 1;
            cur = Vec::new();
            if count == 40 {
                proof {
                    lemma_first_title_after(done, after, 40);
                }
                return None;
            }
        } else {
            cur.push(s[i]);
        }
        i += 1;
    }
    let ghost tail = lines_from(cur@, s@.skip(i as int));
    assert(s@.skip(i as int) =~= Seq::<char>::empty());
    proof {
        lemma_first_title_after(done, tail, 40);
    }
    if cur.len() > 0 {
        assert(tail =~= seq![cur@]);
        let r = title_of_line(&cur);
        proof {
            assert(tail.drop_first() =~= Seq::<Seq<char>>::empty());
            assert(first_title_within(tail.drop_first(), (39 - done.len()) as nat) is None);
            assert(first_title_within(tail, (40 - done.len()) as nat) == title_in_line(cur@));
        }
        match r {
            Some(t) => Some(string_of(&t)),
            None => None,
        }
    } else {
        assert(tail =~= Seq::<Seq<char>>::empty());
        None
    }
}


/// Unix time stamps (in seconds) at least a day after the start of year 1
/// and at least a day before the end of year 9999, UTC: whatever the time
/// zone's offset (always less than a day), their local date has a year of
/// four digits.
pub open spec fn in_minute_range(secs: int) -> bool {
    -62_135_510_400 <= secs <= 253_402_214_399
}

/// Text of the shape `YYYY-MM-DD HH:MM`: digits, with `-`, `-`, a space and
/// `:` at their places.
pub open spec fn is_minute_text(t: Seq<char>) -> bool {
    &&& t.len() == 16
    &&& t[4] == '-'
    &&& t[7] == '-'
    &&& t[10] == ' '
    &&& t[13] == ':'
    &&& forall|i: int|
        0 <= i < 16 && i != 4 && i != 7 && i != 10 && i != 13 ==> #[trigger] is_digit(t[i])
}

/// A result that holds text of the shape `YYYY-MM-DD HH:MM`.
pub open spec fn minute_text_of(r: Option<String>) -> bool {
    match r {
        Some(t) => is_minute_text(t@),
        None => false,
    }
}

/// chrono's `Local.timestamp_opt(secs, nsecs).single()`, formatted with
/// `format("%Y-%m-%d %H:%M")`: the local date and time of a Unix time stamp
/// to the minute. For a time stamp in [`in_minute_range`] with `nsecs` below
/// a second, chrono builds the date (`timestamp_opt` gives a single result
/// whenever `DateTime::from_timestamp` does) and writes a year of four
/// zero-padded digits and two digits for each other field, so the text has
/// the shape `YYYY-MM-DD HH:MM`. Which date and time it is depends on the
/// time zone and is left unsaid; so is chrono's panic when the system's time
/// zone data cannot be read.
#[verifier::external_body]
fn local_minute_text(secs: i64, nsecs: u32) -> (r: Option<String>)
    ensures
        in_minute_range(secs as int) ==> (nsecs < 1_000_000_000 ==> minute_text_of(r)),
{
    chrono::TimeZone::timestamp_opt(&chrono::Local, secs, nsecs)
        .single()
        .map(|t| t.format("%Y-%m-%d %H:%M").to_string())
}

/// Whole seconds of a time in nanoseconds since the epoch, rounded down.
pub open spec fn epoch_seconds(nanos: int) -> int {
    nanos / 1_000_000_000
}

/// Why a document cannot be renamed to `to`: nothing is to be overwritten.
/// `None` when the move may go ahead.
pub fn rename_blocked(to: &str, to_exists: bool) -> (r: Option<String>)
    ensures
        to_exists ==> (r matches Some(m) && m@ == "destination exists: "@ + to@),
        !to_exists ==> r is None,
{
    if to_exists {
        Some(crate::text::cat("destination exists: ", to))
    } else {
        None
    }
}

/// Why a trashed document cannot go back to `original`: nothing is to be
/// overwritten. `None` when the move may go ahead.
pub fn restore_blocked(original: &str, original_exists: bool) -> (r: Option<String>)
    ensures
        original_exists ==> (r matches Some(m) && m@ == "cannot restore — file exists: "@ + original@),
        !original_exists ==> r is None,
{
    if original_exists {
        Some(crate::text::cat("cannot restore — file exists: ", original))
    } else {
        None
    }
}

/// A time in nanoseconds since the epoch as whole seconds, rounded down, and
/// the nanoseconds left over.
pub fn epoch_parts(nanos: i128) -> (r: (i64, u32))
    requires
        i64::MIN <= epoch_seconds(nanos as int) <= i64::MAX,
    ensures
        r.0 == epoch_seconds(nanos as int),
        r.1 == nanos % 1_000_000_000,
        r.0 * 1_000_000_000 + r.1 == nanos,
{
    let secs = nanos / 1_000_000_000;
    let rem = nanos % 1_000_000_000;
    let (whole, sub): (i128, i128) = if rem < 0 {
        (secs - 1, rem + 1_000_000_000)
    } else {
        (secs, rem)
    };
    proof {
        assert(whole * 1_000_000_000 + sub == nanos);
        vstd::arithmetic::div_mod::lemma_fundamental_div_mod_converse(
            nanos as int,
            1_000_000_000,
            whole as int,
            sub as int,
        );
    }
    (whole as i64, sub as u32)
}

/// Format a modification time (nanoseconds since the epoch) as
/// `YYYY-MM-DD HH:MM` in the local time zone; `None` for a time chrono
/// cannot represent. What chrono is handed is [`epoch_parts`] of the time;
/// for any time between the years 1 and 9999 the text is there and has that
/// shape, while which date and time it shows depends on the time zone.
pub fn fmt_mtime(nanos: i128) -> (r: Option<String>)
    requires
        i64::MIN <= epoch_seconds(nanos as int) <= i64::MAX,
    ensures
        in_minute_range(epoch_seconds(nanos as int)) ==> minute_text_of(r),
{
    let (secs, sub) = epoch_parts(nanos);
    local_minute_text(secs, sub)
}

} // verus!
