//! Paths as text: joining, prefixes, the home directory.
use vstd::prelude::*;
use crate::text::{chars_of, has_prefix, push_all, string_of, suffix_from};

verus! {

/// `rel` appended to `base` the way `PathBuf::push` does on Unix: an
/// absolute `rel` replaces `base`; otherwise a `/` goes between them unless
/// `base` is empty or already ends in `/`. The library joins paths this way
/// on every platform: `/` is the separator it writes and the only one that
/// makes a path absolute (Windows drive and `\` prefixes are not
/// recognised), so on Windows it differs from `Path::join`.
pub open spec fn join_path(base: Seq<char>, rel: Seq<char>) -> Seq<char> {
    if rel.len() > 0 && rel[0] == '/' {
        rel
    } else if base.len() == 0 || base.last() == '/' {
        base + rel
    } else {
        base + seq!['/'] + rel
    }
}

pub fn join_chars(base: &Vec<char>, rel: &Vec<char>) -> (out: Vec<char>)
    ensures
        out@ == join_path(base@, rel@),
{
    let mut out: Vec<char> = Vec::new();
    if rel.len() > 0 && rel[0] == '/' {
        push_all(&mut out, rel);
    } else {
        push_all(&mut out, base);
        if !(base.len() == 0 || base[base.len() - 1] == '/') {
            out.push('/');
        }
        push_all(&mut out, rel);
    }
    out
}

/// `Path::new(base).join(rel)` as Unix does it, as text (see [`join_path`]).
pub fn join(base: &str, rel: &str) -> (r: String)
    ensures
        r@ == join_path(base@, rel@),
{
    string_of(&join_chars(&chars_of(base), &chars_of(rel)))
}

/// What `Path::strip_prefix` leaves of `path` once the components of `base`
/// are taken off its front, or `None` where `base` is not a prefix of it.
pub uninterp spec fn path_without_prefix(path: Seq<char>, base: Seq<char>) -> Option<Seq<char>>;

/// std's `Path::strip_prefix`, read back as text. The result is a function of
/// the two texts alone; what it is, component by component, is left unsaid.
#[verifier::external_body]
pub(crate) fn strip_path_prefix(path: &str, base: &str) -> (r: Option<String>)
    ensures
        r matches Some(s) ==> path_without_prefix(path@, base@) == Some(s@),
        r is None ==> path_without_prefix(path@, base@) is None,
{
    std::path::Path::new(path).strip_prefix(base).ok().map(|p| p.to_string_lossy().into_owned())
}

/// The user's home directory (`dirs::home_dir`), as lossy text together with
/// whether that text is exact (the path is valid UTF-8). Nothing is stated of
/// it: it comes from the environment.
#[verifier::external_body]
pub(crate) fn home_dir() -> Option<(String, bool)> {
    dirs::home_dir().map(|p| (p.to_string_lossy().into_owned(), p.to_str().is_some()))
}

/// A path typed by the user with a leading `~` taken as `home`: `~/rest`
/// becomes `home` joined with `rest`, a lone `~` becomes `home`, anything
/// else stays as typed, as does everything when there is no home.
pub open spec fn expanded_path(raw: Seq<char>, home: Option<Seq<char>>) -> Seq<char> {
    match home {
        Some(h) => if seq!['~', '/'].is_prefix_of(raw) {
            join_path(h, raw.skip(2))
        } else if raw == seq!['~'] {
            h
        } else {
            raw
        },
        None => raw,
    }
}

/// `raw` with its leading `~` expanded against `home`.
pub fn expand_path_with(raw: &str, home: Option<&str>) -> (r: String)
    ensures
        r@ == expanded_path(raw@, match home { Some(h) => Some(h@), None => None }),
{
    let v = chars_of(raw);
    match home {
        Some(h) => {
            let hv = chars_of(h);
            let tilde_slash = vec!['~', '/'];
            assert(tilde_slash@ =~= seq!['~', '/']);
            if has_prefix(&v, &tilde_slash) {
                let rest = suffix_from(&v, 2);
                string_of(&join_chars(&hv, &rest))
            } else if v.len() == 1 && v[0] == '~' {
                assert(v@ =~= seq!['~']);
                string_of(&hv)
            } else {
                string_of(&v)
            }
        },
        None => string_of(&v),
    }
}

/// A directory typed into the directory picker, with `~` expanded against
/// the user's home directory.
pub fn expand_path(raw: &str) -> (r: String)
    ensures
        exists|home: Option<Seq<char>>| r@ == expanded_path(raw@, home),
{
    match home_dir() {
        Some((h, _)) => expand_path_with(raw, Some(h.as_str())),
        None => expand_path_with(raw, None),
    }
}

} // verus!
