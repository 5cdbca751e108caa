use scribe::templates::Template;

#[test]
fn template_names() {
    for t in Template::all() {
        assert_eq!(Template::from_name(t.name()), Some(t));
    }
    assert_eq!(Template::from_name(""), Some(Template::Blank));
    assert_eq!(Template::from_name("README"), Some(Template::Readme));
    assert_eq!(Template::from_name("Daily"), Some(Template::Journal));
    assert_eq!(Template::from_name("memo"), None);
    assert_eq!(Template::Blank.description(), "Minimal AsciiDoc header");
    assert_eq!(Template::Readme.description(), "Technical README skeleton");
    assert_eq!(Template::Journal.description(), "Date-stamped daily journal entry");
}

#[test]
fn template_filling() {
    let text = Template::Blank.render_with("Plan", "ann", "2024-05-06");
    assert_eq!(text, "= Plan\nann\n2024-05-06\n\n");
    let text = Template::Journal.render_with("Day", "bo", "2024-01-02");
    assert!(text.starts_with("= Day\nbo\n2024-01-02\n\n== 2024-01-02\n"));
    assert!(!text.contains("{{"));
    // the title is filled in first, so placeholders inside it are filled too
    let text = Template::Blank.render_with("{{author}}", "cy", "d");
    assert_eq!(text, "= cy\ncy\nd\n\n");
    for t in Template::all() {
        let raw = t.raw();
        let filled = t.render_with("T", "A", "D");
        let expected = raw.replace("{{title}}", "T").replace("{{author}}", "A").replace("{{date}}", "D");
        assert_eq!(filled, expected);
    }
    let today = Template::Blank.render("X", "me");
    assert!(today.starts_with("= X\nme\n"));
    assert_eq!(today.len(), "= X\nme\n".len() + 10 + 2);
}

#[test]
fn rendered_date_shape() {
    let text = Template::Journal.render("T", "A");
    let date = &text["= T\nA\n".len().."= T\nA\n".len() + 10];
    let b = date.as_bytes();
    for (i, c) in b.iter().enumerate() {
        if i == 4 || i == 7 {
            assert_eq!(*c, b'-');
        } else {
            assert!(c.is_ascii_digit(), "{date}");
        }
    }
    assert!(text.contains(&format!("== {date}\n")));
}
