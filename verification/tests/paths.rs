use scribe::paths::{expand_path, expand_path_with, join};
use std::path::Path;

#[test]
fn join_agrees_with_std() {
    let bases = ["", "/", "/a", "/a/", "a", "a/b", "notes/", "/x//"];
    let rels = ["", "b", "b/c", "/abs", "./d", "é.adoc", "../up"];
    for b in bases {
        for r in rels {
            let expected = Path::new(b).join(r).to_string_lossy().into_owned();
            assert_eq!(join(b, r), expected, "join({b:?}, {r:?})");
        }
    }
}

#[test]
fn tilde_expansion() {
    assert_eq!(expand_path_with("~/docs", Some("/home/u")), "/home/u/docs");
    assert_eq!(expand_path_with("~", Some("/home/u")), "/home/u");
    assert_eq!(expand_path_with("~x", Some("/home/u")), "~x");
    assert_eq!(expand_path_with("/abs", Some("/home/u")), "/abs");
    assert_eq!(expand_path_with("~/docs", None), "~/docs");
}

#[test]
fn tilde_expansion_with_the_home_directory() {
    let home = dirs::home_dir().map(|h| h.to_string_lossy().into_owned());
    match home {
        Some(h) => {
            assert_eq!(expand_path("~/docs"), Path::new(&h).join("docs").to_string_lossy().into_owned());
            assert_eq!(expand_path("~"), h);
        }
        None => assert_eq!(expand_path("~/docs"), "~/docs"),
    }
    assert_eq!(expand_path("/abs/~"), "/abs/~");
}
