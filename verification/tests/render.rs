use ccgui::names::{Message, Names, Who};
use ccgui::render::{esc, md_to_html, render, PAGE_HEAD, PAGE_TAIL};

fn names() -> Names {
    Names { label: "Helper & Co".to_string(), program: "helper".to_string() }
}

fn message(who: Who, text: &str) -> Message {
    Message { who, text: text.to_string() }
}

#[test]
fn escaping_is_three_replacements() {
    for text in ["", "a", "&", "<b>&amp;</b>", "&lt;", "a<b & c>d", "\"'", "é&<>"] {
        let expected = text.replace('&', "&amp;").replace('<', "&lt;").replace('>', "&gt;");
        assert_eq!(esc(text), expected);
        assert!(!esc(text).contains('<') && !esc(text).contains('>'));
    }
}

#[test]
fn markdown_becomes_html() {
    assert_eq!(md_to_html("# T"), "<h1>T</h1>\n");
    assert_eq!(md_to_html("a *b* `c`"), "<p>a <em>b</em> <code>c</code></p>\n");
    assert_eq!(md_to_html("~~x~~"), "<p><del>x</del></p>\n");
    assert_eq!(
        md_to_html("|a|\n|-|\n|b|"),
        "<table><thead><tr><th>a</th></tr></thead><tbody>\n<tr><td>b</td></tr>\n</tbody></table>\n",
    );
    assert_eq!(md_to_html("- [ ] x"), "<ul>\n<li>[ ] x</li>\n</ul>\n");
    assert_eq!(md_to_html(""), "");
}

#[test]
fn an_empty_page() {
    assert_eq!(render(&names(), &vec![], ""), format!("{}{}", PAGE_HEAD, PAGE_TAIL));
    assert!(PAGE_HEAD.starts_with("<!DOCTYPE html><html><head><meta charset=\"utf-8\"><style>body{"));
    assert!(PAGE_HEAD.ends_with("a{color:#4ea1ff}</style></head><body>"));
    assert_eq!(PAGE_TAIL, "<script>window.scrollTo(0,1e9);</script></body></html>");
}

#[test]
fn a_page_with_messages() {
    let messages = vec![
        message(Who::You, "a<b"),
        message(Who::Tool, "🔧 Bash: x > y"),
        message(Who::Assistant, "*ok*"),
        message(Who::System, "bye"),
    ];
    let body = "<div class=\"msg user\"><div class=\"who\">You</div><pre>a&lt;b</pre></div>\
        <div class=\"tool\">🔧 Bash: x &gt; y</div>\
        <div class=\"msg helper\"><div class=\"who\">Helper &amp; Co</div><p><em>ok</em></p>\n</div>\
        <div class=\"msg system\"><div class=\"who\">System</div><pre>bye</pre></div>";
    assert_eq!(
        render(&names(), &messages, ""),
        format!("{}{}{}", PAGE_HEAD, body, PAGE_TAIL),
    );
}

#[test]
fn what_streams_in_comes_last() {
    let messages = vec![message(Who::You, "q")];
    let body = "<div class=\"msg user\"><div class=\"who\">You</div><pre>q</pre></div>\
        <div class=\"msg helper\"><div class=\"who\">Helper &amp; Co</div><p>so <strong>far</strong>\
        </p>\n</div>";
    assert_eq!(
        render(&names(), &messages, "so **far**"),
        format!("{}{}{}", PAGE_HEAD, body, PAGE_TAIL),
    );
}

#[test]
fn shown_names() {
    assert_eq!(names().shown(Who::You), "You");
    assert_eq!(names().shown(Who::Assistant), "Helper & Co");
    assert_eq!(names().shown(Who::System), "System");
    assert_eq!(names().shown(Who::Tool), "Tool");
}
