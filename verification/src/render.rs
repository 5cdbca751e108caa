//! Turning `asciidoctor`'s HTML into preview text, and choosing the exporter.
use vstd::prelude::*;
use crate::text::{
    ascii_alnum, cat, chars_of, copy_chars, is_ascii_alnum, lower, lower_chars, push_all,
    replace_all, replace_chars, string_of,
};

verus! {

/// Where the tag stripper stands after part of its input: inside a tag or
/// not, the text of the last tag opened, and the text kept so far.
pub struct TagScan {
    pub in_tag: bool,
    pub tag: Seq<char>,
    pub out: Seq<char>,
}

/// `s` without its leading `c`s (`str::trim_start_matches` with a `char`).
pub open spec fn drop_leading(s: Seq<char>, c: char) -> Seq<char>
    decreases s.len(),
{
    if s.len() > 0 && s[0] == c {
        drop_leading(s.drop_first(), c)
    } else {
        s
    }
}

/// The longest prefix of `s` made of ASCII letters and digits.
pub open spec fn alnum_prefix(s: Seq<char>) -> Seq<char>
    decreases s.len(),
{
    if s.len() > 0 && is_ascii_alnum(s[0]) {
        seq![s[0]] + alnum_prefix(s.drop_first())
    } else {
        Seq::empty()
    }
}

/// The element name of a tag's text: closing slashes dropped, then the
/// leading letters and digits, in lower case.
pub open spec fn tag_name(tag: Seq<char>) -> Seq<char> {
    alnum_prefix(lower(drop_leading(tag, '/')))
}

/// Elements whose tags end a line of preview text.
pub open spec fn is_block_name(n: Seq<char>) -> bool {
    ||| n == seq!['b', 'r']
    ||| n == seq!['p']
    ||| n == seq!['d', 'i', 'v']
    ||| n == seq!['l', 'i']
    ||| n == seq!['t', 'r']
    ||| n == seq!['h', '1']
    ||| n == seq!['h', '2']
    ||| n == seq!['h', '3']
    ||| n == seq!['h', '4']
    ||| n == seq!['h', '5']
    ||| n == seq!['h', '6']
    ||| n == seq!['p', 'r', 'e']
    ||| n == seq!['h', 'r']
    ||| n == seq!['u', 'l']
    ||| n == seq!['o', 'l']
}

/// One character of tag stripping. `<` opens a tag and forgets the last
/// one; `>` closes a tag and, if the last tag named a block element, ends the
/// line unless it is already ended; other characters go into the open tag,
/// or else into the text.
pub open spec fn tag_step(st: TagScan, c: char) -> TagScan {
    if c == '<' {
        TagScan { in_tag: true, tag: Seq::empty(), out: st.out }
    } else if c == '>' {
        let ends_line = is_block_name(tag_name(st.tag)) && !(st.out.len() > 0 && st.out.last()
            == '\n');
        TagScan {
            in_tag: false,
            tag: st.tag,
            out: if ends_line {
                st.out.push('\n')
            } else {
                st.out
            },
        }
    } else if st.in_tag {
        TagScan { in_tag: true, tag: st.tag.push(c), out: st.out }
    } else {
        TagScan { in_tag: false, tag: st.tag, out: st.out.push(c) }
    }
}

pub open spec fn tag_scan(st: TagScan, s: Seq<char>) -> TagScan
    decreases s.len(),
{
    if s.len() == 0 {
        st
    } else {
        tag_scan(tag_step(st, s[0]), s.drop_first())
    }
}

/// The text of `html` with its tags taken out.
pub open spec fn strip_tags(html: Seq<char>) -> Seq<char> {
    tag_scan(TagScan { in_tag: false, tag: Seq::empty(), out: Seq::empty() }, html).out
}

/// The six entities that the preview decodes, in the order it decodes them.
pub open spec fn decode_entities(s: Seq<char>) -> Seq<char> {
    let s1 = replace_all(s, seq!['&', 'n', 'b', 's', 'p', ';'], seq![' ']);
    let s2 = replace_all(s1, seq!['&', 'a', 'm', 'p', ';'], seq!['&']);
    let s3 = replace_all(s2, seq!['&', 'l', 't', ';'], seq!['<']);
    let s4 = replace_all(s3, seq!['&', 'g', 't', ';'], seq!['>']);
    let s5 = replace_all(s4, seq!['&', 'q', 'u', 'o', 't', ';'], seq!['"']);
    replace_all(s5, seq!['&', '#', '3', '9', ';'], seq!['\''])
}

/// `s` with every run of newlines cut to at most two, given that `run`
/// newlines directly precede it.
pub open spec fn collapse_from(run: nat, s: Seq<char>) -> Seq<char>
    decreases s.len(),
{
    if s.len() == 0 {
        Seq::empty()
    } else if s[0] == '\n' {
        if run + 1 <= 2 {
            seq!['\n'] + collapse_from(run + 1, s.drop_first())
        } else {
            collapse_from(run + 1, s.drop_first())
        }
    } else {
        seq![s[0]] + collapse_from(0, s.drop_first())
    }
}

/// What the preview pane shows of `html`: tags stripped, entities decoded,
/// runs of three or more newlines cut to two, leading newlines dropped.
pub open spec fn preview_text(html: Seq<char>) -> Seq<char> {
    drop_leading(collapse_from(0, decode_entities(strip_tags(html))), '\n')
}

fn block_names() -> (v: Vec<Vec<char>>)
    ensures
        forall|n: Seq<char>| is_block_name(n) <==> exists|i: int| 0 <= i < v@.len() && (#[trigger] v@[i])@ == n,
{
    let v = vec![
        vec!['b', 'r'],
        vec!['p'],
        vec!['d', 'i', 'v'],
        vec!['l', 'i'],
        vec!['t', 'r'],
        vec!['h', '1'],
        vec!['h', '2'],
        vec!['h', '3'],
        vec!['h', '4'],
        vec!['h', '5'],
        vec!['h', '6'],
        vec!['p', 'r', 'e'],
        vec!['h', 'r'],
        vec!['u', 'l'],
        vec!['o', 'l'],
    ];
    proof {
        assert forall|n: Seq<char>| is_block_name(n) implies exists|i: int|
            0 <= i < v@.len() && (#[trigger] v@[i])@ == n by {
            if n == seq!['b', 'r'] { assert(v@[0]@ =~= n); }
            else if n == seq!['p'] { assert(v@[1]@ =~= n); }
            else if n == seq!['d', 'i', 'v'] { assert(v@[2]@ =~= n); }
            else if n == seq!['l', 'i'] { assert(v@[3]@ =~= n); }
            else if n == seq!['t', 'r'] { assert(v@[4]@ =~= n); }
            else if n == seq!['h', '1'] { assert(v@[5]@ =~= n); }
            else if n == seq!['h', '2'] { assert(v@[6]@ =~= n); }
            else if n == seq!['h', '3'] { assert(v@[7]@ =~= n); }
            else if n == seq!['h', '4'] { assert(v@[8]@ =~= n); }
            else if n == seq!['h', '5'] { assert(v@[9]@ =~= n); }
            else if n == seq!['h', '6'] { assert(v@[10]@ =~= n); }
            else if n == seq!['p', 'r', 'e'] { assert(v@[11]@ =~= n); }
            else if n == seq!['h', 'r'] { assert(v@[12]@ =~= n); }
            else if n == seq!['u', 'l'] { assert(v@[13]@ =~= n); }
            else { assert(v@[14]@ =~= n); }
        }
        assert forall|i: int| 0 <= i < v@.len() implies is_block_name(#[trigger] v@[i]@) by {
            if i == 0 { assert(v@[0]@ =~= seq!['b', 'r']); }
            else if i == 1 { assert(v@[1]@ =~= seq!['p']); }
            else if i == 2 { assert(v@[2]@ =~= seq!['d', 'i', 'v']); }
            else if i == 3 { assert(v@[3]@ =~= seq!['l', 'i']); }
            else if i == 4 { assert(v@[4]@ =~= seq!['t', 'r']); }
            else if i == 5 { assert(v@[5]@ =~= seq!['h', '1']); }
            else if i == 6 { assert(v@[6]@ =~= seq!['h', '2']); }
            else if i == 7 { assert(v@[7]@ =~= seq!['h', '3']); }
            else if i == 8 { assert(v@[8]@ =~= seq!['h', '4']); }
            else if i == 9 { assert(v@[9]@ =~= seq!['h', '5']); }
            else if i == 10 { assert(v@[10]@ =~= seq!['h', '6']); }
            else if i == 11 { assert(v@[11]@ =~= seq!['p', 'r', 'e']); }
            else if i == 12 { assert(v@[12]@ =~= seq!['h', 'r']); }
            else if i == 13 { assert(v@[13]@ =~= seq!['u', 'l']); }
            else { assert(v@[14]@ =~= seq!['o', 'l']); }
        }
    }
    v
}

fn same_chars(a: &Vec<char>, b: &Vec<char>) -> (r: bool)
    ensures
        r == (a@ == b@),
{
    if a.len() != b.len() {
        return false;
    }
    let mut i: usize = 0;
    while i < a.len()
        invariant
            a.len() == b.len(),
            i <= a.len(),
            forall|j: int| 0 <= j < i ==> a@[j] == b@[j],
        decreases a.len() - i,
    {
        if a[i] != b[i] {
            return false;
        }
        i += 1;
    }
    assert(a@ =~= b@);
    true
}

fn block_name(n: &Vec<char>) -> (r: bool)
    ensures
        r == is_block_name(n@),
{
    let names = block_names();
    let mut i: usize = 0;
    while i < names.len()
        invariant
            i <= names.len(),
            forall|n: Seq<char>| is_block_name(n) <==> exists|k: int| 0 <= k < names@.len() && (#[trigger] names@[k])@ == n,
            forall|j: int| 0 <= j < i ==> (#[trigger] names@[j])@ != n@,
        decreases names.len() - i,
    {
        if same_chars(&names[i], n) {
            return true;
        }
        i += 1;
    }
    false
}

proof fn lemma_drop_leading_at(s: Seq<char>, c: char, k: int)
    requires
        0 <= k <= s.len(),
        forall|j: int| 0 <= j < k ==> s[j] == c,
        k == s.len() || s[k] != c,
    ensures
        drop_leading(s, c) == s.skip(k),
    decreases k,
{
    if k == 0 {
        assert(s.skip(0) =~= s);
    } else {
        lemma_drop_leading_at(s.drop_first(), c, k - 1);
        assert(s.drop_first().skip(k - 1) =~= s.skip(k));
    }
}

/// `v` without its leading `c`s.
fn drop_leading_chars(v: &Vec<char>, c: char) -> (out: Vec<char>)
    ensures
        out@ == drop_leading(v@, c),
{
    let mut k: usize = 0;
    while k < v.len() && v[k] == c
        invariant
            k <= v.len(),
            forall|j: int| 0 <= j < k ==> v@[j] == c,
        decreases v.len() - k,
    {
        k += 1;
    }
    proof {
        lemma_drop_leading_at(v@, c, k as int);
    }
    let mut out: Vec<char> = Vec::new();
    let mut i: usize = k;
    while i < v.len()
        invariant
            k <= i <= v.len(),
            out@ == v@.subrange(k as int, i as int),
        decreases v.len() - i,
    {
        out.push(v[i]);
        i += 1;
    }
    out
}

proof fn lemma_alnum_prefix_at(s: Seq<char>, k: int)
    requires
        0 <= k <= s.len(),
        forall|j: int| 0 <= j < k ==> is_ascii_alnum(s[j]),
        k == s.len() || !is_ascii_alnum(s[k]),
    ensures
        alnum_prefix(s) == s.take(k),
    decreases k,
{
    if k == 0 {
        assert(s.take(0) =~= Seq::<char>::empty());
    } else {
        lemma_alnum_prefix_at(s.drop_first(), k - 1);
        assert(seq![s[0]] + s.drop_first().take(k - 1) =~= s.take(k));
    }
}

fn tag_name_chars(tag: &Vec<char>) -> (out: Vec<char>)
    ensures
        out@ == tag_name(tag@),
{
    let trimmed = drop_leading_chars(tag, '/');
    let lowered = lower_chars(&trimmed);
    let mut out: Vec<char> = Vec::new();
    let mut k: usize = 0;
    while k < lowered.len() && ascii_alnum(lowered[k])
        invariant
            k <= lowered.len(),
            out@ == lowered@.take(k as int),
            forall|j: int| 0 <= j < k ==> is_ascii_alnum(lowered@[j]),
        decreases lowered.len() - k,
    {
        out.push(lowered[k]);
        k += 1;
    }
    proof {
        lemma_alnum_prefix_at(lowered@, k as int);
    }
    out
}

fn strip_tags_chars(html: &Vec<char>) -> (out: Vec<char>)
    ensures
        out@ == strip_tags(html@),
{
    let mut in_tag = false;
    let mut tag: Vec<char> = Vec::new();
    let mut out: Vec<char> = Vec::new();
    let mut i: usize = 0;
    let ghost init = TagScan { in_tag: false, tag: Seq::empty(), out: Seq::empty() };
    assert(html@.skip(0) =~= html@);
    while i < html.len()
        invariant
            i <= html.len(),
            tag_scan(init, html@) == tag_scan(
                TagScan { in_tag: in_tag, tag: tag@, out: out@ },
                html@.skip(i as int),
            ),
        decreases html.len() - i,
    {
        let ghost st = TagScan { in_tag: in_tag, tag: tag@, out: out@ };
        let c = html[i];
        if c == '<' {
            in_tag = true;
            tag = Vec::new();
        } else if c == '>' {
            in_tag = false;
            let name = tag_name_chars(&tag);
            if block_name(&name) {
                let ends = out.len() > 0 && out[out.len() - 1] == '\n';
                if !ends {
                    out.push('\n');
                }
            }
        } else if in_tag {
            tag.push(c);
        } else {
            out.push(c);
        }
        proof {
            let rest = html@.skip(i as int);
            assert(rest[0] == c);
            assert(rest.drop_first() =~= html@.skip(i + 1));
            assert(tag_step(st, c) == TagScan { in_tag: in_tag, tag: tag@, out: out@ });
        }
        i += 1;
    }
    out
}

fn decode_entities_chars(v: &Vec<char>) -> (out: Vec<char>)
    ensures
        out@ == decode_entities(v@),
{
    let nbsp = vec!['&', 'n', 'b', 's', 'p', ';'];
    let amp = vec!['&', 'a', 'm', 'p', ';'];
    let lt = vec!['&', 'l', 't', ';'];
    let gt = vec!['&', 'g', 't', ';'];
    let quot = vec!['&', 'q', 'u', 'o', 't', ';'];
    let apos = vec!['&', '#', '3', '9', ';'];
    assert(nbsp@ =~= seq!['&', 'n', 'b', 's', 'p', ';']);
    assert(amp@ =~= seq!['&', 'a', 'm', 'p', ';']);
    assert(lt@ =~= seq!['&', 'l', 't', ';']);
    assert(gt@ =~= seq!['&', 'g', 't', ';']);
    assert(quot@ =~= seq!['&', 'q', 'u', 'o', 't', ';']);
    assert(apos@ =~= seq!['&', '#', '3', '9', ';']);
    let space = vec![' '];
    let ampersand = vec!['&'];
    let less = vec!['<'];
    let greater = vec!['>'];
    let dquote = vec!['"'];
    let squote = vec!['\''];
    assert(space@ =~= seq![' ']);
    assert(ampersand@ =~= seq!['&']);
    assert(less@ =~= seq!['<']);
    assert(greater@ =~= seq!['>']);
    assert(dquote@ =~= seq!['"']);
    assert(squote@ =~= seq!['\'']);
    let s1 = replace_chars(v, &nbsp, &space);
    let s2 = replace_chars(&s1, &amp, &ampersand);
    let s3 = replace_chars(&s2, &lt, &less);
    let s4 = replace_chars(&s3, &gt, &greater);
    let s5 = replace_chars(&s4, &quot, &dquote);
    replace_chars(&s5, &apos, &squote)
}

fn collapse_chars(v: &Vec<char>) -> (out: Vec<char>)
    ensures
        out@ == collapse_from(0, v@),
{
    let mut out: Vec<char> = Vec::new();
    let mut run: usize = 0;
    let mut i: usize = 0;
    assert(v@.skip(0) =~= v@);
    while i < v.len()
        invariant
            i <= v.len(),
            run <= i,
            out@ + collapse_from(run as nat, v@.skip(i as int)) == collapse_from(0, v@),
        decreases v.len() - i,
    {
        let ghost rest = v@.skip(i as int);
        assert(rest[0] == v@[i as int]);
        assert(rest.drop_first() =~= v@.skip(i + 1));
        if v[i] == '\n' {
            run += 1;
            if run <= 2 {
                out.push('\n');
            }
        } else {
            run = 0;
            out.push(v[i]);
        }
        i += 1;
    }
    assert(v@.skip(i as int) =~= Seq::<char>::empty());
    out
}

/// Very small HTML to text converter for preview purposes. Not a real parser:
/// drops tags, decodes a handful of entities, normalises blank lines.
pub fn strip_html(html: &str) -> (r: String)
    ensures
        r@ == preview_text(html@),
{
    let chars = chars_of(html);
    let stripped = strip_tags_chars(&chars);
    let decoded = decode_entities_chars(&stripped);
    let collapsed = collapse_chars(&decoded);
    let trimmed = drop_leading_chars(&collapsed, '\n');
    string_of(&trimmed)
}


/// No three newlines in a row anywhere in `t`.
pub open spec fn no_blank_run(t: Seq<char>) -> bool {
    forall|i: int|
        0 <= i && i + 2 < t.len() ==> !(#[trigger] t[i] == '\n' && t[i + 1] == '\n' && t[i + 2]
            == '\n')
}

/// `t` can follow `run` newlines without making three in a row.
pub open spec fn fits_after(run: nat, t: Seq<char>) -> bool {
    &&& no_blank_run(t)
    &&& run >= 1 ==> !(t.len() >= 2 && t[0] == '\n' && t[1] == '\n')
    &&& run >= 2 ==> !(t.len() >= 1 && t[0] == '\n')
}

proof fn lemma_collapse_fits(run: nat, s: Seq<char>)
    ensures
        fits_after(run, collapse_from(run, s)),
    decreases s.len(),
{
    let out = collapse_from(run, s);
    if s.len() > 0 {
        let rest = s.drop_first();
        if s[0] == '\n' {
            lemma_collapse_fits(run + 1, rest);
            let r = collapse_from(run + 1, rest);
            if run + 1 <= 2 {
                assert(out == seq!['\n'] + r);
                assert forall|i: int| 0 <= i && i + 2 < out.len() implies !(#[trigger] out[i] == '\n'
                    && out[i + 1] == '\n' && out[i + 2] == '\n') by {
                    if i > 0 {
                        assert(out[i] == r[i - 1] && out[i + 1] == r[i] && out[i + 2] == r[i + 1]);
                    } else {
                        assert(out[1] == r[0] && out[2] == r[1]);
                    }
                }
            }
        } else {
            lemma_collapse_fits(0, rest);
            let r = collapse_from(0, rest);
            assert(out == seq![s[0]] + r);
            assert forall|i: int| 0 <= i && i + 2 < out.len() implies !(#[trigger] out[i] == '\n'
                && out[i + 1] == '\n' && out[i + 2] == '\n') by {
                if i > 0 {
                    assert(out[i] == r[i - 1] && out[i + 1] == r[i] && out[i + 2] == r[i + 1]);
                }
            }
        }
    }
}

proof fn lemma_drop_leading_suffix(s: Seq<char>, c: char)
    ensures
        exists|k: int| 0 <= k <= s.len() && drop_leading(s, c) == s.skip(k),
        !(drop_leading(s, c).len() > 0 && drop_leading(s, c)[0] == c),
    decreases s.len(),
{
    if s.len() > 0 && s[0] == c {
        lemma_drop_leading_suffix(s.drop_first(), c);
        let k = choose|k: int|
            0 <= k <= s.drop_first().len() && drop_leading(s.drop_first(), c) == s.drop_first().skip(
                k,
            );
        assert(s.drop_first().skip(k) =~= s.skip(k + 1));
    } else {
        assert(s.skip(0) =~= s);
    }
}

/// The preview never shows three newlines in a row, and never begins with a
/// newline.
pub proof fn preview_text_shape(html: Seq<char>)
    ensures
        no_blank_run(preview_text(html)),
        !(preview_text(html).len() > 0 && preview_text(html)[0] == '\n'),
{
    let d = decode_entities(strip_tags(html));
    lemma_collapse_fits(0, d);
    let c = collapse_from(0, d);
    lemma_drop_leading_suffix(c, '\n');
    let k = choose|k: int| 0 <= k <= c.len() && drop_leading(c, '\n') == c.skip(k);
    let t = c.skip(k);
    assert forall|i: int| 0 <= i && i + 2 < t.len() implies !(#[trigger] t[i] == '\n' && t[i + 1]
        == '\n' && t[i + 2] == '\n') by {
        assert(t[i] == c[i + k] && t[i + 1] == c[i + k + 1] && t[i + 2] == c[i + k + 2]);
    }
}


proof fn lemma_scan_plain(st: TagScan, s: Seq<char>)
    requires
        !st.in_tag,
        !s.contains('<'),
        !s.contains('>'),
    ensures
        tag_scan(st, s).out == st.out + s,
    decreases s.len(),
{
    if s.len() == 0 {
        assert(st.out + s =~= st.out);
    } else {
        assert(s[0] != '<' && s[0] != '>');
        let rest = s.drop_first();
        assert forall|c: char| #[trigger] rest.contains(c) implies s.contains(c) by {
            let j = choose|j: int| 0 <= j < rest.len() && rest[j] == c;
            assert(s[j + 1] == c);
        }
        lemma_scan_plain(tag_step(st, s[0]), rest);
        assert(st.out.push(s[0]) + rest =~= st.out + s);
    }
}

proof fn lemma_replace_absent(s: Seq<char>, pat: Seq<char>, rep: Seq<char>)
    requires
        pat.len() > 0,
        !s.contains(pat[0]),
    ensures
        replace_all(s, pat, rep) == s,
    decreases s.len(),
{
    if s.len() > 0 {
        assert(s[0] != pat[0]);
        assert(!pat.is_prefix_of(s));
        let rest = s.skip(1);
        assert forall|c: char| #[trigger] rest.contains(c) implies s.contains(c) by {
            let j = choose|j: int| 0 <= j < rest.len() && rest[j] == c;
            assert(s[j + 1] == c);
        }
        lemma_replace_absent(rest, pat, rep);
        assert(seq![s[0]] + rest =~= s);
    }
}

proof fn lemma_collapse_keeps(run: nat, s: Seq<char>)
    requires
        run <= 2,
        fits_after(run, s),
    ensures
        collapse_from(run, s) == s,
    decreases s.len(),
{
    if s.len() > 0 {
        let rest = s.drop_first();
        assert forall|i: int| 0 <= i && i + 2 < rest.len() implies !(#[trigger] rest[i] == '\n'
            && rest[i + 1] == '\n' && rest[i + 2] == '\n') by {
            assert(rest[i] == s[i + 1] && rest[i + 1] == s[i + 2] && rest[i + 2] == s[i + 3]);
        }
        if s[0] == '\n' {
            assert(run + 1 <= 2);
            if rest.len() >= 1 && run + 1 >= 1 && rest.len() >= 2 {
                assert(!(s[0] == '\n' && s[1] == '\n' && s[2] == '\n'));
            }
            lemma_collapse_keeps(run + 1, rest);
        } else {
            lemma_collapse_keeps(0, rest);
        }
        assert(seq![s[0]] + rest =~= s);
    }
}

/// Text without markup passes through the preview unchanged: no `<`, `>` or
/// `&`, no three newlines in a row, and no newline at the start.
pub proof fn preview_keeps_plain_text(text: Seq<char>)
    requires
        !text.contains('<'),
        !text.contains('>'),
        !text.contains('&'),
        no_blank_run(text),
        !(text.len() > 0 && text[0] == '\n'),
    ensures
        preview_text(text) == text,
{
    let init = TagScan { in_tag: false, tag: Seq::empty(), out: Seq::empty() };
    lemma_scan_plain(init, text);
    assert(Seq::<char>::empty() + text =~= text);
    lemma_replace_absent(text, seq!['&', 'n', 'b', 's', 'p', ';'], seq![' ']);
    lemma_replace_absent(text, seq!['&', 'a', 'm', 'p', ';'], seq!['&']);
    lemma_replace_absent(text, seq!['&', 'l', 't', ';'], seq!['<']);
    lemma_replace_absent(text, seq!['&', 'g', 't', ';'], seq!['>']);
    lemma_replace_absent(text, seq!['&', 'q', 'u', 'o', 't', ';'], seq!['"']);
    lemma_replace_absent(text, seq!['&', '#', '3', '9', ';'], seq!['\'']);
    lemma_collapse_keeps(0, text);
    lemma_drop_leading_at(text, '\n', 0);
    assert(text.skip(0) =~= text);
}


/// What `Path::with_extension` makes of `path` and `ext`: the extension of
/// the file name replaced by (or, where there is none, given) `ext`.
pub uninterp spec fn path_with_extension(path: Seq<char>, ext: Seq<char>) -> Seq<char>;

/// std's `Path::with_extension`, read back as text. The result is a function
/// of the two texts alone; its exact shape (file stems, dots, trailing
/// separators) is left unsaid. std panics when the extension holds a path
/// separator (`/`, and on Windows also `\`), so `ext` may hold neither.
#[verifier::external_body]
fn with_extension(path: &str, ext: &str) -> (r: String)
    requires
        !ext@.contains('/'),
        !ext@.contains('\\'),
    ensures
        r@ == path_with_extension(path@, ext@),
{
    std::path::Path::new(path).with_extension(ext).to_string_lossy().into_owned()
}

/// How to export a document: the program to run, and the file it writes.
pub struct ExportPlan {
    pub bin: String,
    pub out_path: String,
}

/// The converter and file extension for an export format, if it is known.
pub open spec fn export_tool(format: Seq<char>) -> Option<(Seq<char>, Seq<char>)> {
    if format == "html"@ {
        Some(("asciidoctor"@, "html"@))
    } else if format == "pdf"@ {
        Some(("asciidoctor-pdf"@, "pdf"@))
    } else {
        None
    }
}

fn text_is(a: &str, b: &str) -> (r: bool)
    ensures
        r == (a@ == b@),
{
    let av = chars_of(a);
    let bv = chars_of(b);
    same_chars(&av, &bv)
}

/// Plan the export of `path` to `format`: `html` runs `asciidoctor`, `pdf`
/// runs `asciidoctor-pdf`, and the output goes to `output` or else next to
/// the source with the format's extension; any other format is refused.
pub fn plan_export(path: &str, format: &str, output: Option<&str>) -> (r: Result<ExportPlan, String>)
    ensures
        match export_tool(format@) {
            Some((bin, ext)) => r matches Ok(plan) && plan.bin@ == bin && plan.out_path@ == match output {
                Some(o) => o@,
                None => path_with_extension(path@, ext),
            },
            None => r matches Err(msg) && msg@ == "unknown export format: "@ + format@,
        },
{
    let (bin, ext) = if text_is(format, "html") {
        ("asciidoctor", "html")
    } else if text_is(format, "pdf") {
        ("asciidoctor-pdf", "pdf")
    } else {
        return Err(cat("unknown export format: ", format));
    };
    proof {
        reveal_strlit("html");
        reveal_strlit("pdf");
        assert(!ext@.contains('/') && !ext@.contains('\\')) by {
            assert forall|i: int| 0 <= i < ext@.len() implies ext@[i] != '/' && ext@[i] != '\\' by {
                if ext@ == "html"@ {
                    assert("html"@[i] != '/' && "html"@[i] != '\\');
                } else {
                    assert("pdf"@[i] != '/' && "pdf"@[i] != '\\');
                }
            }
        }
    }
    let out_path = match output {
        Some(o) => string_of(&chars_of(o)),
        None => with_extension(path, ext),
    };
    Ok(ExportPlan { bin: string_of(&chars_of(bin)), out_path })
}

/// The error shown when the converter is not installed.
pub fn missing_tool_message(bin: &str) -> (r: String)
    ensures
        r@ == "`"@ + bin@ + "` not found in PATH; install it to use this feature"@,
{
    let a = cat("`", bin);
    cat(a.as_str(), "` not found in PATH; install it to use this feature")
}

/// What the preview pane shows when `asciidoctor` could not render a document.
pub fn preview_failure_text(err: &str) -> (r: String)
    ensures
        r@ == "[preview unavailable]\n\n"@ + err@ + "\n\nInstall `asciidoctor` to enable previews."@,
{
    let a = cat("[preview unavailable]\n\n", err);
    cat(a.as_str(), "\n\nInstall `asciidoctor` to enable previews.")
}

/// The error reported when `asciidoctor` fails on a preview: its standard
/// error output, trimmed.
pub fn preview_error(stderr: &str) -> (r: String)
    ensures
        r@ == "asciidoctor failed: "@ + crate::text::trim(stderr@),
{
    let t = crate::text::trim_chars(&chars_of(stderr));
    cat("asciidoctor failed: ", string_of(&t).as_str())
}

} // verus!
