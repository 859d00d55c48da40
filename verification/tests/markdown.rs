use k1f_bot::markdown::{html_escape, markdown_to_telegram_html, render_events, MdEvent, MdTag, MdTagEnd};

fn convert(md: &str) -> String {
    markdown_to_telegram_html(md)
}

#[test]
fn bold_and_italic() {
    let out = convert("**bold** and *italic*");
    assert_eq!(out, "<b>bold</b> and <i>italic</i>");
}

#[test]
fn inline_code() {
    let out = convert("status: `OK`");
    assert_eq!(out, "status: <code>OK</code>");
}

#[test]
fn fenced_code_block_becomes_pre() {
    let md = "```\n{\"status\": \"OK\"}\n```";
    let out = convert(md);
    assert_eq!(out, "<pre><code>{\"status\": \"OK\"}\n</code></pre>");
}

#[test]
fn heading_becomes_bold() {
    let out = convert("# Report Title");
    assert_eq!(out, "<b>Report Title</b>");
}

#[test]
fn blockquote() {
    let out = convert("> a quoted line");
    // Inner paragraph adds a trailing newline before </blockquote>.
    assert_eq!(out, "<blockquote>a quoted line\n</blockquote>");
}

#[test]
fn unordered_list() {
    let out = convert("- one\n- two\n- three");
    assert_eq!(out, "• one\n• two\n• three");
}

#[test]
fn ordered_list_increments() {
    let out = convert("1. first\n2. second\n3. third");
    assert_eq!(out, "1. first\n2. second\n3. third");
}

#[test]
fn link_becomes_anchor() {
    let out = convert("[docs](https://example.com/x?a=1&b=2)");
    assert_eq!(out, "<a href=\"https://example.com/x?a=1&amp;b=2\">docs</a>");
}

#[test]
fn table_becomes_pre() {
    let md = "| A | B |\n|---|---|\n| 1 | 2 |\n";
    let out = convert(md);
    // pulldown-cmark renders table text; we wrap the whole thing in <pre>.
    assert!(out.starts_with("<pre>"), "got: {out}");
    assert!(out.ends_with("</pre>"), "got: {out}");
    assert!(out.contains("A") && out.contains("B"));
}

#[test]
fn html_chars_in_text_are_escaped() {
    let out = convert("a < b > c & d");
    assert_eq!(out, "a &lt; b &gt; c &amp; d");
}

#[test]
fn horizontal_rule_degrades_to_dash() {
    let out = convert("---");
    assert_eq!(out, "—");
}

#[test]
fn tasklist_markers_become_glyphs() {
    let out = convert("- [x] done\n- [ ] todo");
    assert_eq!(out, "☑ done\n☐ todo");
}

#[test]
fn details_html_block_is_dropped() {
    let md = "<details>\n<summary>x</summary>\nbody\n</details>";
    let out = convert(md);
    // Must not leak any raw tags into Telegram's HTML parser.
    assert!(!out.contains('<') || out.starts_with("<"));
}

#[test]
fn ordered_list_keeps_its_first_number() {
    assert_eq!(convert("7. seven\n8. eight"), "7. seven\n8. eight");
}

#[test]
fn nested_lists_count_separately() {
    let events = vec![
        MdEvent::Start(MdTag::List(Some(3))),
        MdEvent::Start(MdTag::Item),
        MdEvent::Text("a".to_string()),
        MdEvent::Start(MdTag::List(None)),
        MdEvent::Start(MdTag::Item),
        MdEvent::Text("b".to_string()),
        MdEvent::End(MdTagEnd::Item),
        MdEvent::End(MdTagEnd::List),
        MdEvent::End(MdTagEnd::Item),
        MdEvent::Start(MdTag::Item),
        MdEvent::Text("c".to_string()),
        MdEvent::End(MdTagEnd::Item),
        MdEvent::End(MdTagEnd::List),
    ];
    assert_eq!(render_events(&events), "3. a• b\n\n4. c");
}

#[test]
fn quotes_are_escaped_outside_pre_only() {
    assert_eq!(html_escape("say \"hi\" & <go>", false), "say &quot;hi&quot; &amp; &lt;go&gt;");
    assert_eq!(html_escape("say \"hi\" & <go>", true), "say \"hi\" &amp; &lt;go&gt;");
    assert_eq!(html_escape("", false), "");
}

#[test]
fn text_inside_code_block_keeps_quotes() {
    let events = vec![
        MdEvent::Start(MdTag::CodeBlock),
        MdEvent::Text("a\"<b>\"\n".to_string()),
        MdEvent::End(MdTagEnd::CodeBlock),
        MdEvent::Text("\"".to_string()),
    ];
    assert_eq!(render_events(&events), "<pre><code>a\"&lt;b&gt;\"\n</code></pre>\n&quot;");
}

#[test]
fn link_destination_is_escaped() {
    let events = vec![
        MdEvent::Start(MdTag::Link("https://x/?q=\"1\"&r=<2>".to_string(), "a \"title\"".to_string())),
        MdEvent::Text("go".to_string()),
        MdEvent::End(MdTagEnd::Link),
    ];
    assert_eq!(render_events(&events), "<a href=\"https://x/?q=&quot;1&quot;&amp;r=&lt;2&gt;\">go</a>");
}

#[test]
fn raw_html_math_and_footnotes_are_dropped() {
    let events = vec![
        MdEvent::Html,
        MdEvent::InlineHtml,
        MdEvent::InlineMath,
        MdEvent::DisplayMath,
        MdEvent::FootnoteReference,
        MdEvent::Start(MdTag::HtmlBlock),
        MdEvent::End(MdTagEnd::HtmlBlock),
        MdEvent::Start(MdTag::Image),
        MdEvent::End(MdTagEnd::Image),
        MdEvent::Start(MdTag::FootnoteDefinition),
        MdEvent::End(MdTagEnd::FootnoteDefinition),
        MdEvent::Text("kept".to_string()),
    ];
    assert_eq!(render_events(&events), "kept");
    assert_eq!(convert("<b>raw</b> text"), "raw text");
}

#[test]
fn task_marker_without_bullet_is_appended() {
    let events = vec![MdEvent::Text("x".to_string()), MdEvent::TaskListMarker(true)];
    assert_eq!(render_events(&events), "x☑");
}

#[test]
fn trailing_white_space_is_trimmed() {
    let events = vec![
        MdEvent::Text("a \u{a0}\t".to_string()),
        MdEvent::SoftBreak,
        MdEvent::HardBreak,
        MdEvent::Rule,
    ];
    assert_eq!(render_events(&events), "a \u{a0}\t\n\n—");
    assert_eq!(render_events(&[]), "");
}

#[test]
fn emphasis_strong_strike_and_code() {
    let events = vec![
        MdEvent::Start(MdTag::Heading),
        MdEvent::Start(MdTag::Emphasis),
        MdEvent::Text("i".to_string()),
        MdEvent::End(MdTagEnd::Emphasis),
        MdEvent::Start(MdTag::Strong),
        MdEvent::Text("b".to_string()),
        MdEvent::End(MdTagEnd::Strong),
        MdEvent::Start(MdTag::Strikethrough),
        MdEvent::Code("<c>".to_string()),
        MdEvent::End(MdTagEnd::Strikethrough),
        MdEvent::End(MdTagEnd::Heading),
        MdEvent::Start(MdTag::Table),
        MdEvent::Text("\"t\"".to_string()),
        MdEvent::End(MdTagEnd::Table),
    ];
    assert_eq!(
        render_events(&events),
        "<b><i>i</i><b>b</b><s><code>&lt;c&gt;</code></s></b>\n<pre>\"t\"</pre>"
    );
    assert_eq!(convert("~~gone~~"), "<s>gone</s>");
}

#[test]
fn ordered_list_counter_wraps_at_the_top() {
    let events = vec![
        MdEvent::Start(MdTag::List(Some(u64::MAX))),
        MdEvent::Start(MdTag::Item),
        MdEvent::End(MdTagEnd::Item),
        MdEvent::Start(MdTag::Item),
        MdEvent::Text("x".to_string()),
        MdEvent::End(MdTagEnd::List),
    ];
    assert_eq!(render_events(&events), "18446744073709551615. \n0. x");
}

#[test]
fn table_rows_and_cells_stay_apart() {
    let out = convert("| A | B |\n|---|---|\n| 1 | 2 |\n");
    assert_eq!(out, "<pre>| A | B |\n| 1 | 2 |\n</pre>");
    assert!(!out.contains("AB") && !out.contains("12"));
}

fn every_angle_opens_an_accepted_tag(html: &str) -> bool {
    let tags = [
        "<b>", "</b>", "<i>", "</i>", "<s>", "</s>", "<code>", "</code>", "<pre>", "</pre>", "<blockquote>",
        "</blockquote>", "</a>",
    ];
    for (k, c) in html.char_indices() {
        if c != '<' {
            continue;
        }
        let rest = &html[k..];
        if tags.iter().any(|t| rest.starts_with(t)) {
            continue;
        }
        match rest.strip_prefix("<a href=\"") {
            Some(after) => match after.find("\">") {
                Some(end) => {
                    if after[..end].contains(|ch: char| ch == '"' || ch == '<' || ch == '>') {
                        return false;
                    }
                }
                None => return false,
            },
            None => return false,
        }
    }
    true
}

#[test]
fn rendered_html_only_opens_accepted_tags() {
    let md = "# Title <x>\n\n<script>alert(1)</script>\n\n*a* **b** ~~c~~ `d<e>` [l](http://h/\"<>) \
              <span>inline</span>\n\n> quote\n\n```\n<pre>\"raw\"</pre>\n```\n\n| A<b> | B |\n|---|---|\n| 1 | 2 |\n\n\
              - [ ] task\n1. one\n\n---\n";
    let out = convert(md);
    assert!(every_angle_opens_an_accepted_tag(&out), "{}", out);
    assert!(!out.contains("<script"));
    assert!(!out.contains("<span"));
    assert!(!out.contains("<x>"));
}
