use scribe::render::{
    missing_tool_message, plan_export, preview_error, preview_failure_text, strip_html,
};

/// A straightforward string-based version of the preview conversion, used as
/// the expected value for generated inputs.
fn expected_preview(html: &str) -> String {
    let mut out = String::with_capacity(html.len());
    let mut in_tag = false;
    let mut current_tag = String::new();
    for ch in html.chars() {
        match ch {
            '<' => {
                in_tag = true;
                current_tag.clear();
            }
            '>' => {
                in_tag = false;
                let stripped = current_tag.trim_start_matches('/').to_ascii_lowercase();
                let tag_name: String =
                    stripped.chars().take_while(|c| c.is_ascii_alphanumeric()).collect();
                match tag_name.as_str() {
                    "br" | "p" | "div" | "li" | "tr" | "h1" | "h2" | "h3" | "h4" | "h5" | "h6"
                    | "pre" | "hr" | "ul" | "ol" => {
                        if !out.ends_with('\n') {
                            out.push('\n');
                        }
                    }
                    _ => {}
                }
            }
            c if in_tag => current_tag.push(c),
            c => out.push(c),
        }
    }
    let decoded = out
        .replace("&nbsp;", " ")
        .replace("&amp;", "&")
        .replace("&lt;", "<")
        .replace("&gt;", ">")
        .replace("&quot;", "\"")
        .replace("&#39;", "'");
    let mut collapsed = String::new();
    let mut run = 0;
    for ch in decoded.chars() {
        if ch == '\n' {
            run += 1;
            if run <= 2 {
                collapsed.push('\n');
            }
        } else {
            run = 0;
            collapsed.push(ch);
        }
    }
    collapsed.trim_start_matches('\n').to_string()
}

#[test]
fn preview_examples() {
    assert_eq!(strip_html("<p>Hello</p><p>World</p>"), "Hello\nWorld\n");
    assert_eq!(strip_html("<h1>T</h1>\n\n\n\nbody"), "T\n\nbody");
    assert_eq!(strip_html("a &amp;lt; b &nbsp;&quot;q&quot; &#39;s"), "a < b  \"q\" 's");
    assert_eq!(strip_html("\n\n<div>x</div>"), "x\n");
    assert_eq!(strip_html("<BR>line<Br/>"), "line\n");
    assert_eq!(strip_html("<span>in</span>line"), "inline");
    assert_eq!(strip_html("x>y"), "xy");
    assert_eq!(strip_html("<br>a>b"), "a\nb");
    assert_eq!(strip_html(""), "");
    assert_eq!(strip_html("plain text\nstays"), "plain text\nstays");
}

#[test]
fn preview_matches_string_version() {
    let pieces = [
        "<p>", "</p>", "<br>", "<BR/>", "<div class=\"x\">", "</div>", "<li>", "<span>", "</span>",
        "<h2 id=a>", "<hr>", "<pre>", "<ul>", "<ol>", "<tr>", "<h7>", "<//p>", "<>", ">", "<",
        "\n", "\n\n", "\n\n\n", "&amp;", "&lt;", "&gt;", "&quot;", "&#39;", "&nbsp;", "&amp;lt;",
        "&", ";", "text", " ", "é", "日本", "a", "b", "\r\n", "<P ", "/>",
    ];
    let mut x: u64 = 0x2545_f491_4f6c_dd1d;
    for _ in 0..4000 {
        let mut html = String::new();
        x ^= x << 13;
        x ^= x >> 7;
        x ^= x << 17;
        let n = (x % 24) as usize;
        for _ in 0..n {
            x ^= x << 13;
            x ^= x >> 7;
            x ^= x << 17;
            html.push_str(pieces[(x % pieces.len() as u64) as usize]);
        }
        assert_eq!(strip_html(&html), expected_preview(&html), "input {html:?}");
    }
}

#[test]
fn export_plans() {
    let p = plan_export("/n/plan.adoc", "html", None).ok().unwrap();
    assert_eq!(p.bin, "asciidoctor");
    assert_eq!(p.out_path, "/n/plan.html");
    let p = plan_export("/n/plan.adoc", "pdf", Some("/tmp/out.pdf")).ok().unwrap();
    assert_eq!(p.bin, "asciidoctor-pdf");
    assert_eq!(p.out_path, "/tmp/out.pdf");
    let p = plan_export("/n/a.tar.adoc", "pdf", None).ok().unwrap();
    assert_eq!(p.out_path, "/n/a.tar.pdf");
    match plan_export("/n/plan.adoc", "docx", None) {
        Err(e) => assert_eq!(e, "unknown export format: docx"),
        Ok(_) => panic!("docx accepted"),
    }
    assert_eq!(
        missing_tool_message("asciidoctor"),
        "`asciidoctor` not found in PATH; install it to use this feature"
    );
    assert_eq!(
        preview_failure_text("boom"),
        "[preview unavailable]\n\nboom\n\nInstall `asciidoctor` to enable previews."
    );
}

#[test]
fn preview_errors() {
    assert_eq!(preview_error("  bad input\n\n"), "asciidoctor failed: bad input");
    assert_eq!(preview_error(""), "asciidoctor failed: ");
    let stderr = "\u{a0}\tline one\nline two \u{3000}";
    assert_eq!(preview_error(stderr), format!("asciidoctor failed: {}", stderr.trim()));
}
