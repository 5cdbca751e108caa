//! Built-in document templates and their placeholders.
use vstd::prelude::*;
use crate::text::{chars_of, digits_in, is_year_text, lower, lower_chars, replace_all, replace_chars, string_of};

verus! {

/// Built-in document templates.
#[derive(Clone, Copy, Debug, PartialEq, Eq, Structural)]
pub enum Template {
    Blank,
    Readme,
    Journal,
}

pub open spec fn title_placeholder() -> Seq<char> {
    seq!['{', '{', 't', 'i', 't', 'l', 'e', '}', '}']
}

pub open spec fn author_placeholder() -> Seq<char> {
    seq!['{', '{', 'a', 'u', 't', 'h', 'o', 'r', '}', '}']
}

pub open spec fn date_placeholder() -> Seq<char> {
    seq!['{', '{', 'd', 'a', 't', 'e', '}', '}']
}

/// The text of `raw` with `{{title}}`, then `{{author}}`, then `{{date}}`
/// replaced.
pub open spec fn filled(raw: Seq<char>, title: Seq<char>, author: Seq<char>, date: Seq<char>) -> Seq<
    char,
> {
    replace_all(
        replace_all(replace_all(raw, title_placeholder(), title), author_placeholder(), author),
        date_placeholder(),
        date,
    )
}

/// The template that a name given on the command line selects: matched
/// without regard to ASCII case, with the empty name meaning `blank` and
/// `daily` meaning `journal`.
pub open spec fn template_named(name: Seq<char>) -> Option<Template> {
    let n = lower(name);
    if n == seq!['b', 'l', 'a', 'n', 'k'] || n.len() == 0 {
        Some(Template::Blank)
    } else if n == seq!['r', 'e', 'a', 'd', 'm', 'e'] {
        Some(Template::Readme)
    } else if n == seq!['j', 'o', 'u', 'r', 'n', 'a', 'l'] || n == seq!['d', 'a', 'i', 'l', 'y'] {
        Some(Template::Journal)
    } else {
        None
    }
}

fn chars_eq(a: &Vec<char>, b: &Vec<char>) -> (r: bool)
    ensures
        r == (a@ == b@),
{
    if a.len() != b.len() {
        return false;
    }
    let mut i: usize = 0;
    while i < a.len()
        invariant
            a.len() == b.len(),
            i <= a.len(),
            forall|j: int| 0 <= j < i ==> a@[j] == b@[j],
        decreases a.len() - i,
    {
        if a[i] != b[i] {
            return false;
        }
        i += 1;
    }
    assert(a@ =~= b@);
    true
}

/// Text of the shape chrono writes for `%Y-%m-%d`: a year (see
/// [`is_year_text`]; `YYYY` for the years 0 to 9999), `-`, two digits of
/// month, `-`, two digits of day.
pub open spec fn is_date_text(t: Seq<char>) -> bool {
    let n = t.len() as int;
    &&& n >= 10
    &&& is_year_text(t.take(n - 6))
    &&& t[n - 6] == '-'
    &&& digits_in(t, n - 5, n - 3)
    &&& t[n - 3] == '-'
    &&& digits_in(t, n - 2, n)
}

/// Today's date as `YYYY-MM-DD` in the local time zone (chrono's
/// `Local::now().format("%Y-%m-%d")`). chrono writes the year as in
/// [`is_year_text`] and month and day as two zero-padded digits each. Which
/// day it is depends on the clock and the time zone and is left unsaid.
#[verifier::external_body]
fn today() -> (r: String)
    ensures
        is_date_text(r@),
{
    chrono::Local::now().format("%Y-%m-%d").to_string()
}

impl Template {
    /// The template's text, with its placeholders still in it.
    pub open spec fn text(self) -> Seq<char> {
        match self {
            Template::Blank => "= {{title}}\n{{author}}\n{{date}}\n\n"@,
            Template::Readme => "= {{title}}\n{{author}}\n{{date}}\n:toc:\n:icons: font\n\n== Overview\n\n== Installation\n\n== Usage\n\n== License\n"@,
            Template::Journal => "= {{title}}\n{{author}}\n{{date}}\n\n== {{date}}\n\n=== Goals\n\n=== Notes\n\n=== Reflections\n"@,
        }
    }

    /// Every built-in template, in the order the picker shows them.
    pub fn all() -> (r: Vec<Template>)
        ensures
            r@ == seq![Template::Blank, Template::Readme, Template::Journal],
    {
        let r = vec![Template::Blank, Template::Readme, Template::Journal];
        assert(r@ =~= seq![Template::Blank, Template::Readme, Template::Journal]);
        r
    }

    /// The name the command line and the picker use.
    pub open spec fn name_text(self) -> Seq<char> {
        match self {
            Template::Blank => "blank"@,
            Template::Readme => "readme"@,
            Template::Journal => "journal"@,
        }
    }

    pub fn name(self) -> (r: &'static str)
        ensures
            r@ == self.name_text(),
    {
        match self {
            Template::Blank => "blank",
            Template::Readme => "readme",
            Template::Journal => "journal",
        }
    }

    /// What the picker says the template is for.
    pub open spec fn description_text(self) -> Seq<char> {
        match self {
            Template::Blank => "Minimal AsciiDoc header"@,
            Template::Readme => "Technical README skeleton"@,
            Template::Journal => "Date-stamped daily journal entry"@,
        }
    }

    pub fn description(self) -> (r: &'static str)
        ensures
            r@ == self.description_text(),
    {
        match self {
            Template::Blank => "Minimal AsciiDoc header",
            Template::Readme => "Technical README skeleton",
            Template::Journal => "Date-stamped daily journal entry",
        }
    }

    pub fn from_name(name: &str) -> (r: Option<Template>)
        ensures
            r == template_named(name@),
    {
        let n = lower_chars(&chars_of(name));
        let blank = vec!['b', 'l', 'a', 'n', 'k'];
        let readme = vec!['r', 'e', 'a', 'd', 'm', 'e'];
        let journal = vec!['j', 'o', 'u', 'r', 'n', 'a', 'l'];
        let daily = vec!['d', 'a', 'i', 'l', 'y'];
        assert(blank@ =~= seq!['b', 'l', 'a', 'n', 'k']);
        assert(readme@ =~= seq!['r', 'e', 'a', 'd', 'm', 'e']);
        assert(journal@ =~= seq!['j', 'o', 'u', 'r', 'n', 'a', 'l']);
        assert(daily@ =~= seq!['d', 'a', 'i', 'l', 'y']);
        if chars_eq(&n, &blank) || n.len() == 0 {
            Some(Template::Blank)
        } else if chars_eq(&n, &readme) {
            Some(Template::Readme)
        } else if chars_eq(&n, &journal) || chars_eq(&n, &daily) {
            Some(Template::Journal)
        } else {
            None
        }
    }

    /// The template's text, with its placeholders still in it.
    pub fn raw(self) -> (r: &'static str)
        ensures
            r@ == self.text(),
    {
        match self {
            Template::Blank => "= {{title}}\n{{author}}\n{{date}}\n\n",
            Template::Readme => "= {{title}}\n{{author}}\n{{date}}\n:toc:\n:icons: font\n\n== Overview\n\n== Installation\n\n== Usage\n\n== License\n",
            Template::Journal => "= {{title}}\n{{author}}\n{{date}}\n\n== {{date}}\n\n=== Goals\n\n=== Notes\n\n=== Reflections\n",
        }
    }

    /// The template with `{{title}}`, `{{author}}` and `{{date}}` filled in,
    /// in that order.
    pub fn render_with(self, title: &str, author: &str, date: &str) -> (r: String)
        ensures
            r@ == filled(self.text(), title@, author@, date@),
    {
        let raw = chars_of(self.raw());
        let t = chars_of("{{title}}");
        let a = chars_of("{{author}}");
        let d = chars_of("{{date}}");
        proof {
            reveal_strlit("{{title}}");
            reveal_strlit("{{author}}");
            reveal_strlit("{{date}}");
            assert(t@ =~= title_placeholder());
            assert(a@ =~= author_placeholder());
            assert(d@ =~= date_placeholder());
        }
        let step1 = replace_chars(&raw, &t, &chars_of(title));
        let step2 = replace_chars(&step1, &a, &chars_of(author));
        let step3 = replace_chars(&step2, &d, &chars_of(date));
        string_of(&step3)
    }

    /// Render the template for `title` and `author`, dated today
    /// (`YYYY-MM-DD`).
    pub fn render(self, title: &str, author: &str) -> (r: String)
        ensures
            exists|date: Seq<char>| is_date_text(date) && r@ == filled(self.text(), title@, author@, date),
    {
        let date = today();
        self.render_with(title, author, date.as_str())
    }
}

} // verus!
