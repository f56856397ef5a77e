//! The transcript as a page.

use crate::laws::commands::{lemma_shows, shows};
use crate::names::{MessageView, NamesView, Who};
use crate::render::{
    escaped, live_html, markdown_html, messages_html, page, PAGE_HEAD, PAGE_TAIL,
};
use vstd::prelude::*;

verus! {

/// What a page shows between its head and its tail.
pub open spec fn body_of(html: Seq<char>) -> Seq<char> {
    html.subrange(PAGE_HEAD@.len() as int, html.len() - PAGE_TAIL@.len())
}

/// The part of a page for a message under a name, in a style class.
pub open spec fn block(class: Seq<char>, name: Seq<char>, inner: Seq<char>) -> Seq<char> {
    "<div class=\"msg "@ + class + "\"><div class=\"who\">"@ + escaped(name) + "</div>"@ + inner
        + "</div>"@
}

/// The part of a page for a message: a reply by its Markdown, tables and strikethrough on, and
/// everything else by its text, written out.
pub open spec fn part(names: NamesView, message: MessageView) -> Seq<char> {
    match message.who {
        Who::Assistant => block(
            names.program,
            names.label,
            markdown_html(message.text, true, true),
        ),
        Who::You => block("user"@, "You"@, "<pre>"@ + escaped(message.text) + "</pre>"@),
        Who::System => block("system"@, "System"@, "<pre>"@ + escaped(message.text) + "</pre>"@),
        Who::Tool => "<div class=\"tool\">"@ + escaped(message.text) + "</div>"@,
    }
}

proof fn lemma_body(inner: Seq<char>)
    ensures
        body_of(PAGE_HEAD@ + inner + PAGE_TAIL@) == inner,
{
    assert(body_of(PAGE_HEAD@ + inner + PAGE_TAIL@) =~= inner);
}

/// A page has its head and its tail, and an empty transcript shows nothing between them.
pub proof fn law_page_frame(names: NamesView, messages: Seq<MessageView>, live: Seq<char>)
    ensures
        page(names, messages, live) == PAGE_HEAD@ + body_of(page(names, messages, live))
            + PAGE_TAIL@,
        body_of(page(names, Seq::empty(), Seq::empty())).len() == 0,
{
    let inner = messages_html(names, messages) + live_html(
        names,
        live,
    );
    lemma_body(inner);
    let none = messages_html(names, Seq::empty()) + live_html(
        names,
        Seq::empty(),
    );
    lemma_body(none);
}

/// A further message adds its part behind the others, and changes nothing before it. A reply's part
/// holds the Markdown of its text as it stands.
pub proof fn law_page_grows(names: NamesView, messages: Seq<MessageView>, message: MessageView)
    ensures
        body_of(page(names, messages.push(message), Seq::empty())) == body_of(
            page(names, messages, Seq::empty()),
        ) + part(names, message),
{
    let none = live_html(names, Seq::empty());
    let before = messages_html(names, messages);
    assert(messages.push(message).drop_last() =~= messages);
    lemma_body(before + none);
    lemma_body(messages_html(names, messages.push(message)) + none);
    assert(before + none =~= before);
    assert(messages_html(names, messages.push(message)) + none =~= before + part(names, message));
}

/// What has streamed in so far is shown as the finished reply will be: the page is that of the
/// transcript with this reply behind it.
pub proof fn law_live_as_finished(names: NamesView, messages: Seq<MessageView>, live: Seq<char>)
    requires
        live.len() > 0,
    ensures
        page(names, messages, live) == page(
            names,
            messages.push(MessageView { who: Who::Assistant, text: live }),
            Seq::empty(),
        ),
{
    let reply = MessageView { who: Who::Assistant, text: live };
    let none = live_html(names, Seq::empty());
    assert(messages.push(reply).drop_last() =~= messages);
    assert(messages_html(names, messages.push(reply)) + none =~= messages_html(names, messages)
        + live_html(names, live));
}

proof fn lemma_part_of_messages(names: NamesView, messages: Seq<MessageView>, i: int)
    requires
        0 <= i < messages.len(),
    ensures
        exists|before: Seq<char>, after: Seq<char>|
            messages_html(names, messages) == #[trigger] (before + part(names, messages[i])
                + after),
    decreases messages.len(),
{
    let rest = messages.drop_last();
    if i == messages.len() - 1 {
        assert(messages_html(names, messages) =~= messages_html(names, rest) + part(
            names,
            messages[i],
        ) + Seq::<char>::empty());
    } else {
        lemma_part_of_messages(names, rest, i);
        let (before, after) = choose|before: Seq<char>, after: Seq<char>|
            messages_html(names, rest) == #[trigger] (before + part(names, rest[i]) + after);
        assert(messages_html(names, messages) =~= before + part(names, messages[i]) + (after + part(
            names,
            messages.last(),
        )));
    }
}

/// Every message of the transcript is shown, whatever else is.
pub proof fn law_every_message_is_on_the_page(
    names: NamesView,
    messages: Seq<MessageView>,
    live: Seq<char>,
    i: int,
)
    requires
        0 <= i < messages.len(),
    ensures
        shows(page(names, messages, live), part(names, messages[i])),
{
    lemma_part_of_messages(names, messages, i);
    let (before, after) = choose|before: Seq<char>, after: Seq<char>|
        messages_html(names, messages) == #[trigger] (before + part(names, messages[i]) + after);
    let live_part = live_html(names, live);
    lemma_shows(PAGE_HEAD@ + before, part(names, messages[i]), after + live_part + PAGE_TAIL@);
    assert(page(names, messages, live) =~= PAGE_HEAD@ + before + part(names, messages[i]) + (after
        + live_part + PAGE_TAIL@));
}

} // verus!
