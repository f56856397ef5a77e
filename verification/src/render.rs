//! The transcript as a page.

use crate::names::{shown_name, Message, MessageView, Names, NamesView, Who};
use crate::text::chars_of;
use vstd::prelude::*;

verus! {

/// What stands on the page before the messages.
pub const PAGE_HEAD: &'static str = "<!DOCTYPE html><html><head><meta charset=\"utf-8\"><style>body{background:#1e1e1e;color:#e0e0e0;font-family:system-ui,sans-serif;margin:0;padding:16px;font-size:14px;line-height:1.55}.msg{margin-bottom:18px}.who{font-size:12px;color:#888;margin-bottom:4px}.user pre,.system pre{white-space:pre-wrap;word-break:break-word;margin:0;font-family:ui-monospace,monospace}.user pre{color:#9cdcfe}.system{color:#c5915f;font-style:italic}.tool{color:#7fae7f;font-family:ui-monospace,monospace;font-size:12px;margin:2px 0;white-space:pre-wrap;word-break:break-word}code{background:#2d2d2d;padding:1px 4px;border-radius:3px;font-family:ui-monospace,monospace}pre code{display:block;padding:10px;overflow-x:auto}table{border-collapse:collapse;margin:8px 0}th,td{border:1px solid #444;padding:4px 8px}th{background:#2d2d2d}a{color:#4ea1ff}</style></head><body>";

/// What stands on the page behind the messages.
pub const PAGE_TAIL: &'static str = "<script>window.scrollTo(0,1e9);</script></body></html>";

/// A character as it is written in a page.
pub open spec fn escaped_char(c: char) -> Seq<char> {
    if c == '&' {
        "&amp;"@
    } else if c == '<' {
        "&lt;"@
    } else if c == '>' {
        "&gt;"@
    } else {
        seq![c]
    }
}

/// A text as it is written in a page.
pub open spec fn escaped(s: Seq<char>) -> Seq<char>
    decreases s.len(),
{
    if s.len() == 0 {
        Seq::empty()
    } else {
        escaped(s.drop_last()) + escaped_char(s.last())
    }
}

/// The text with `&`, `<` and `>` written out.
pub fn esc(text: &str) -> (res: String)
    ensures
        res@ == escaped(text@),
{
    let chars = chars_of(text);
    let mut res = String::new();
    for i in 0..chars.len()
        invariant
            res@ == escaped(chars@.take(i as int)),
    {
        proof {
            assert(chars@.take(i + 1).drop_last() =~= chars@.take(i as int));
        }
        let c = chars[i];
        if c == '&' {
            res.append("&amp;");
        } else if c == '<' {
            res.append("&lt;");
        } else if c == '>' {
            res.append("&gt;");
        } else {
            res.push(c);
        }
    }
    proof {
        assert(chars@.take(chars@.len() as int) =~= chars@);
    }
    res
}

/// The HTML that `pulldown_cmark` makes of a Markdown text, with or without its table and
/// strikethrough extensions.
pub uninterp spec fn markdown_html(
    md: Seq<char>,
    tables: bool,
    strikethrough: bool,
) -> Seq<char>;

/// `pulldown_cmark::html::push_html` onto an empty text, of `pulldown_cmark::Parser::new_ext` with
/// the two options given: the result depends on the text and on the options alone.
#[verifier::external_body]
fn markdown(md: &str, tables: bool, strikethrough: bool) -> (html: String)
    ensures
        html@ == markdown_html(md@, tables, strikethrough),
{
    let mut options = pulldown_cmark::Options::empty();
    options.set(pulldown_cmark::Options::ENABLE_TABLES, tables);
    options.set(pulldown_cmark::Options::ENABLE_STRIKETHROUGH, strikethrough);
    let mut html = String::new();
    pulldown_cmark::html::push_html(&mut html, pulldown_cmark::Parser::new_ext(md, options));
    html
}

/// A reply's Markdown as HTML, tables and strikethrough included.
pub fn md_to_html(md: &str) -> (html: String)
    ensures
        html@ == markdown_html(md@, true, true),
{
    markdown(md, true, true)
}

/// The style class of a message; a reply has that of the program.
pub open spec fn class_of(names: NamesView, who: Who) -> Seq<char> {
    match who {
        Who::You => "user"@,
        Who::Assistant => names.program,
        _ => "system"@,
    }
}

/// What a message says, as it is written in a page: Markdown for replies, plain text for the rest.
pub open spec fn said(message: MessageView) -> Seq<char> {
    if message.who == Who::Assistant {
        markdown_html(message.text, true, true)
    } else {
        "<pre>"@ + escaped(message.text) + "</pre>"@
    }
}

/// A message of the transcript, as it is written in a page.
pub open spec fn message_html(names: NamesView, message: MessageView) -> Seq<char> {
    if message.who == Who::Tool {
        "<div class=\"tool\">"@ + escaped(message.text) + "</div>"@
    } else {
        "<div class=\"msg "@ + class_of(names, message.who) + "\"><div class=\"who\">"@ + escaped(
            shown_name(names, message.who),
        ) + "</div>"@ + said(message) + "</div>"@
    }
}

/// The messages of the transcript, one behind the other.
pub open spec fn messages_html(names: NamesView, messages: Seq<MessageView>) -> Seq<char>
    decreases messages.len(),
{
    if messages.len() == 0 {
        Seq::empty()
    } else {
        messages_html(names, messages.drop_last()) + message_html(names, messages.last())
    }
}

/// The part of a reply that has come in so far, where there is one.
pub open spec fn live_html(names: NamesView, live: Seq<char>) -> Seq<char> {
    if live.len() == 0 {
        Seq::empty()
    } else {
        "<div class=\"msg "@ + names.program + "\"><div class=\"who\">"@ + escaped(names.label)
            + "</div>"@ + markdown_html(live, true, true) + "</div>"@
    }
}

/// The page that shows a transcript.
pub open spec fn page(names: NamesView, messages: Seq<MessageView>, live: Seq<char>) -> Seq<char> {
    PAGE_HEAD@ + (messages_html(names, messages) + live_html(names, live)) + PAGE_TAIL@
}

/// `message_html` as code.
fn render_message(names: &Names, message: &Message) -> (html: String)
    ensures
        html@ == message_html(names@, message.deep_view()),
{
    let text = message.text.as_str();
    if message.who == Who::Tool {
        let mut html = "<div class=\"tool\">".to_owned();
        html.append(esc(text).as_str());
        html.append("</div>");
        return html;
    }
    let class = match message.who {
        Who::You => "user",
        Who::Assistant => names.program.as_str(),
        _ => "system",
    };
    let inner = if message.who == Who::Assistant {
        md_to_html(text)
    } else {
        let mut plain = "<pre>".to_owned();
        plain.append(esc(text).as_str());
        plain.append("</pre>");
        plain
    };
    let mut html = "<div class=\"msg ".to_owned();
    html.append(class);
    html.append("\"><div class=\"who\">");
    html.append(esc(names.shown(message.who)).as_str());
    html.append("</div>");
    html.append(inner.as_str());
    html.append("</div>");
    html
}

/// The page that shows the transcript and the part of a reply that has come in so far.
pub fn render(names: &Names, messages: &Vec<Message>, live: &str) -> (html: String)
    ensures
        html@ == page(names@, messages.deep_view(), live@),
{
    let ghost all = messages.deep_view();
    let mut body = String::new();
    for i in 0..messages.len()
        invariant
            all == messages.deep_view(),
            body@ == messages_html(names@, all.take(i as int)),
    {
        proof {
            assert(all.take(i + 1).drop_last() =~= all.take(i as int));
            assert(all[i as int] == messages@[i as int].deep_view());
        }
        body.append(render_message(names, &messages[i]).as_str());
    }
    proof {
        assert(all.take(all.len() as int) =~= all);
    }
    if !live.is_empty() {
        let mut part = "<div class=\"msg ".to_owned();
        part.append(names.program.as_str());
        part.append("\"><div class=\"who\">");
        part.append(esc(names.label.as_str()).as_str());
        part.append("</div>");
        part.append(md_to_html(live).as_str());
        part.append("</div>");
        body.append(part.as_str());
    } else {
        proof {
            assert(body@ + Seq::<char>::empty() =~= body@);
        }
    }
    let mut html = PAGE_HEAD.to_owned();
    html.append(body.as_str());
    html.append(PAGE_TAIL);
    html
}

} // verus!
