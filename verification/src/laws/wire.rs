//! What the program's messages report, member by member.

use crate::json::{json_of, JsonView};
use crate::laws::machine::{next, run, Input};
use crate::laws::turns::{law_reply_streams_in, piece_reports, pieces};
use crate::names::{MessageView, Who};
use crate::paths::parent_of;
use crate::tab::TabView;
use crate::laws::words::{blank, law_trimmed_blank};
use crate::text::{before_spaces, is_space_char, on_one_line, past_spaces, trimmed};
use crate::wire::{
    denied_dir, denied_dirs, events_of, line_events, tool_events, tool_label, tool_target,
    turn_of, user_tree, EvView,
};
use vstd::prelude::*;

verus! {

/// The text that an object has under a name.
pub open spec fn text_in(members: Map<Seq<char>, JsonView>, name: Seq<char>) -> Option<Seq<char>> {
    if members.contains_key(name) && members[name] is Str {
        Some(members[name]->Str_0)
    } else {
        None
    }
}

/// The text that an object has under a name, or the empty one.
pub open spec fn words_in(members: Map<Seq<char>, JsonView>, name: Seq<char>) -> Seq<char> {
    match text_in(members, name) {
        Some(text) => text,
        None => Seq::empty(),
    }
}

/// The count that an object has under a name; nothing else counts.
pub open spec fn count_in(members: Map<Seq<char>, JsonView>, name: Seq<char>) -> u64 {
    if members.contains_key(name) && members[name] is Number && members[name]->Number_0 is Some {
        members[name]->Number_0->0
    } else {
        0
    }
}

/// The members of a value, where it is an object.
pub open spec fn members_of(value: JsonView) -> Map<Seq<char>, JsonView> {
    if value is Object {
        value->Object_0
    } else {
        Map::empty()
    }
}

/// The members of the object that an object has under a name.
pub open spec fn object_in(members: Map<Seq<char>, JsonView>, name: Seq<char>) -> Map<
    Seq<char>,
    JsonView,
> {
    if members.contains_key(name) {
        members_of(members[name])
    } else {
        Map::empty()
    }
}

/// The items of the list that an object has under a name.
pub open spec fn list_in(members: Map<Seq<char>, JsonView>, name: Seq<char>) -> Seq<JsonView> {
    if members.contains_key(name) && members[name] is Array {
        members[name]->Array_0
    } else {
        Seq::empty()
    }
}

/// A turn's reply is what the message has under `result`, character for character, however long it
/// is; a message without one has an empty response.
pub proof fn law_reply_is_verbatim(value: JsonView)
    ensures
        match text_in(members_of(value), "result"@) {
            Some(reply) => turn_of(value).result == reply,
            None => turn_of(value).result == "(empty response)"@,
        },
{
}

/// A turn's session is what the message has under `session_id`.
pub proof fn law_turn_names_its_session(value: JsonView)
    ensures
        turn_of(value).session_id == text_in(members_of(value), "session_id"@),
{
}

/// Each count of tokens is the one that the message's `usage` has under its own name.
pub proof fn law_tokens_are_verbatim(value: JsonView)
    ensures
        ({
            let usage = object_in(members_of(value), "usage"@);
            let told = turn_of(value).usage;
            &&& told.input == count_in(usage, "input_tokens"@)
            &&& told.cache_create == count_in(usage, "cache_creation_input_tokens"@)
            &&& told.cache_read == count_in(usage, "cache_read_input_tokens"@)
            &&& told.output == count_in(usage, "output_tokens"@)
        }),
{
}

/// Every refusal is told, in its place: by its tool, and by the command line that was refused, or
/// else the file.
pub proof fn law_refusals_are_told(value: JsonView, i: int)
    requires
        0 <= i < list_in(members_of(value), "permission_denials"@).len(),
    ensures
        ({
            let refused = list_in(members_of(value), "permission_denials"@);
            let refusal = members_of(refused[i]);
            let input = object_in(refusal, "tool_input"@);
            let tool = match text_in(refusal, "tool_name"@) {
                Some(tool) => tool,
                None => "?"@,
            };
            let command = words_in(input, "command"@);
            let file = words_in(input, "file_path"@);
            let told = turn_of(value).denials;
            &&& told.len() == refused.len()
            &&& command.len() > 0 ==> told[i] == tool + ": "@ + command
            &&& command.len() == 0 && file.len() > 0 ==> told[i] == tool + " -> "@ + file
            &&& command.len() == 0 && file.len() == 0 ==> told[i] == tool
        }),
{
    reveal_strlit("");
}

/// A message that lists no refusals has none.
pub proof fn law_no_refusals(value: JsonView)
    requires
        list_in(members_of(value), "permission_denials"@).len() == 0,
    ensures
        turn_of(value).denials.len() == 0,
        turn_of(value).denied_dirs.len() == 0,
{
}

/// The folder that a refusal asks for is the one that the refused file lies in, unless that is the
/// unnamed one; a refused command line asks for none.
pub proof fn law_folder_of_refusal(refusal: JsonView)
    ensures
        ({
            let input = object_in(members_of(refusal), "tool_input"@);
            let command = words_in(input, "command"@);
            let file = words_in(input, "file_path"@);
            &&& command.len() > 0 ==> denied_dir(refusal) is None
            &&& file.len() == 0 ==> denied_dir(refusal) is None
            &&& command.len() == 0 && file.len() > 0 ==> match parent_of(file) {
                Some(dir) => denied_dir(refusal) == if dir.len() > 0 {
                    Some(dir)
                } else {
                    None
                },
                None => denied_dir(refusal) is None,
            }
        }),
{
    reveal_strlit("");
}

/// The folders of a turn are those of its refusals, in the order in which they come up: a further
/// refusal adds its folder behind the others, or nothing.
pub proof fn law_folders_in_order(value: JsonView, refused: Seq<JsonView>, more: JsonView)
    ensures
        turn_of(value).denied_dirs == denied_dirs(
            list_in(members_of(value), "permission_denials"@),
        ),
        denied_dirs(Seq::empty()).len() == 0,
        denied_dirs(refused).is_prefix_of(denied_dirs(refused.push(more))),
        denied_dirs(refused.push(more)).len() <= denied_dirs(refused).len() + 1,
        denied_dir(more) is Some && !denied_dirs(refused).contains(denied_dir(more)->0)
            ==> denied_dirs(refused.push(more)) == denied_dirs(refused).push(denied_dir(more)->0),
        denied_dir(more) is None ==> denied_dirs(refused.push(more)) == denied_dirs(refused),
{
    assert(refused.push(more).drop_last() =~= refused);
}

proof fn lemma_kinds()
    ensures
        "system"@ != "result"@,
        "system"@ != "assistant"@,
        "system"@ != "stream_event"@,
        "result"@ != "assistant"@,
        "result"@ != "stream_event"@,
        "assistant"@ != "stream_event"@,
        "text_delta"@ != "thinking_delta"@,
{
    reveal_strlit("system");
    reveal_strlit("result");
    reveal_strlit("assistant");
    reveal_strlit("stream_event");
    reveal_strlit("text_delta");
    reveal_strlit("thinking_delta");
    assert("system"@[0] != "result"@[0]);
    assert("system"@.len() != "assistant"@.len());
    assert("system"@.len() != "stream_event"@.len());
    assert("assistant"@.len() != "stream_event"@.len());
    assert("text_delta"@.len() != "thinking_delta"@.len());
}

/// An init message reports the model and the session that it names, and no other.
pub proof fn law_init_message(members: Map<Seq<char>, JsonView>)
    requires
        text_in(members, "type"@) == Some("system"@),
        text_in(members, "subtype"@) == Some("init"@),
    ensures
        events_of(JsonView::Object(members)) == seq![
            EvView::Init {
                model: text_in(members, "model"@),
                session_id: text_in(members, "session_id"@),
            },
        ],
{
}

/// A result message reports the end of its turn.
pub proof fn law_result_message(members: Map<Seq<char>, JsonView>)
    requires
        text_in(members, "type"@) == Some("result"@),
    ensures
        events_of(JsonView::Object(members)) == seq![
            EvView::Turn(turn_of(JsonView::Object(members))),
        ],
{
    lemma_kinds();
}

/// A message that brings the piece `text` of a reply.
pub open spec fn is_piece(members: Map<Seq<char>, JsonView>, text: Seq<char>) -> bool {
    let event = object_in(members, "event"@);
    let delta = object_in(event, "delta"@);
    &&& text_in(members, "type"@) == Some("stream_event"@)
    &&& text_in(event, "type"@) == Some("content_block_delta"@)
    &&& text_in(delta, "type"@) == Some("text_delta"@)
    &&& text_in(delta, "text"@) == Some(text)
}

/// A piece of a reply is reported character for character, white space included; an empty one is
/// not reported.
pub proof fn law_piece_is_verbatim(members: Map<Seq<char>, JsonView>, text: Seq<char>)
    requires
        is_piece(members, text),
    ensures
        text.len() > 0 ==> events_of(JsonView::Object(members)) == seq![EvView::Delta(text)],
        text.len() == 0 ==> events_of(JsonView::Object(members)).len() == 0,
{
    lemma_kinds();
}

/// A thinking delta reports thinking.
pub proof fn law_thinking_message(members: Map<Seq<char>, JsonView>)
    requires
        text_in(members, "type"@) == Some("stream_event"@),
        text_in(object_in(members, "event"@), "type"@) == Some("content_block_delta"@),
        text_in(object_in(object_in(members, "event"@), "delta"@), "type"@) == Some(
            "thinking_delta"@,
        ),
    ensures
        events_of(JsonView::Object(members)) == seq![EvView::Thinking],
{
    lemma_kinds();
}

/// Every other stream event reports nothing.
pub proof fn law_other_stream_events(members: Map<Seq<char>, JsonView>)
    requires
        text_in(members, "type"@) == Some("stream_event"@),
        ({
            let event = object_in(members, "event"@);
            let delta = object_in(event, "delta"@);
            ||| text_in(event, "type"@) != Some("content_block_delta"@)
            ||| text_in(delta, "type"@) != Some("text_delta"@) && text_in(delta, "type"@) != Some(
                "thinking_delta"@,
            )
            ||| text_in(delta, "type"@) == Some("text_delta"@) && text_in(delta, "text"@) is None
        }),
    ensures
        events_of(JsonView::Object(members)).len() == 0,
{
    lemma_kinds();
}

/// Every message of another kind reports nothing, and neither does a value that is no object.
pub proof fn law_other_messages(value: JsonView)
    requires
        ({
            let kind = text_in(members_of(value), "type"@);
            &&& kind != Some("result"@)
            &&& kind != Some("assistant"@)
            &&& kind != Some("stream_event"@)
            &&& kind == Some("system"@) ==> text_in(members_of(value), "subtype"@) != Some("init"@)
        }),
    ensures
        events_of(value).len() == 0,
{
}

/// A reply's message reports its blocks, one behind the other: each tool that is used, by its label,
/// and nothing else.
pub proof fn law_reply_message(
    members: Map<Seq<char>, JsonView>,
    before: Seq<JsonView>,
    block: JsonView,
)
    requires
        text_in(members, "type"@) == Some("assistant"@),
    ensures
        events_of(JsonView::Object(members)) == tool_events(
            list_in(object_in(members, "message"@), "content"@),
        ),
        tool_events(Seq::empty()).len() == 0,
        tool_events(before.push(block)) == if text_in(members_of(block), "type"@) == Some(
            "tool_use"@,
        ) {
            tool_events(before).push(EvView::Tool(tool_label(block)))
        } else {
            tool_events(before)
        },
{
    lemma_kinds();
    assert(before.push(block).drop_last() =~= before);
    reveal(Seq::filter);
    assert(tool_events(before.push(block)) =~= if text_in(members_of(block), "type"@) == Some(
        "tool_use"@,
    ) {
        tool_events(before).push(EvView::Tool(tool_label(block)))
    } else {
        tool_events(before)
    });
}

/// What a tool works on is told by the first of these that its input has.
pub open spec fn worked_on(input: Map<Seq<char>, JsonView>) -> Seq<char> {
    if text_in(input, "command"@) is Some {
        text_in(input, "command"@)->0
    } else if text_in(input, "file_path"@) is Some {
        text_in(input, "file_path"@)->0
    } else if text_in(input, "path"@) is Some {
        text_in(input, "path"@)->0
    } else {
        Seq::empty()
    }
}

/// A tool's label tells its name, and what it works on: on one line, as it stands up to a hundred and
/// twenty characters, and cut there with an ellipsis behind it.
pub proof fn law_tool_label(block: JsonView)
    ensures
        ({
            let target = worked_on(object_in(members_of(block), "input"@));
            let line = Seq::new(
                target.len(),
                |i: int|
                    if target[i] == '\n' {
                        ' '
                    } else {
                        target[i]
                    },
            );
            let named = "🔧 "@ + match text_in(members_of(block), "name"@) {
                Some(name) => name,
                None => "tool"@,
            };
            &&& target.len() == 0 ==> tool_label(block) == named
            &&& 0 < target.len() <= 120 ==> tool_label(block) == named + ": "@ + line
            &&& target.len() > 120 ==> tool_label(block) == named + ": "@ + (line.take(120) + "…"@)
        }),
{
    reveal_strlit("");
    reveal_strlit("…");
    let target = worked_on(object_in(members_of(block), "input"@));
    let line = Seq::new(
        target.len(),
        |i: int|
            if target[i] == '\n' {
                ' '
            } else {
                target[i]
            },
    );
    assert(tool_target(block) =~= target);
    assert(on_one_line(target) =~= line);
}

/// A line reports what its JSON does, unless it is blank.
pub proof fn law_line(line: Seq<char>, i: int)
    requires
        0 <= i < line.len(),
        !is_space_char(line[i]),
    ensures
        json_of(line) matches Some(value) ==> line_events(line) == events_of(value),
        json_of(line) is None ==> line_events(line).len() == 0,
{
    lemma_not_blank(line, i);
}

/// A blank line reports nothing.
pub proof fn law_blank_line(line: Seq<char>)
    requires
        blank(line),
    ensures
        line_events(line).len() == 0,
{
    law_trimmed_blank(line);
}

proof fn lemma_past_spaces_up_to(s: Seq<char>, from: int, i: int)
    requires
        0 <= from <= i < s.len(),
        !is_space_char(s[i]),
    ensures
        from <= past_spaces(s, from) <= i,
        !is_space_char(s[past_spaces(s, from)]),
    decreases i - from,
{
    if is_space_char(s[from]) {
        lemma_past_spaces_up_to(s, from + 1, i);
    }
}

proof fn lemma_before_spaces_from(s: Seq<char>, from: int, i: int, to: int)
    requires
        0 <= from <= i < to <= s.len(),
        !is_space_char(s[i]),
    ensures
        i < before_spaces(s, from, to) <= to,
    decreases to - i,
{
    if is_space_char(s[to - 1]) {
        lemma_before_spaces_from(s, from, i, to - 1);
    }
}

proof fn lemma_not_blank(s: Seq<char>, i: int)
    requires
        0 <= i < s.len(),
        !is_space_char(s[i]),
    ensures
        trimmed(s).len() > 0,
{
    lemma_past_spaces_up_to(s, 0, i);
    lemma_before_spaces_from(s, past_spaces(s, 0), i, s.len() as int);
}

/// The reports of messages that each report one thing.
pub open spec fn message_reports(
    gen: u64,
    messages: Seq<Map<Seq<char>, JsonView>>,
    log: Seq<char>,
    mode: u32,
) -> Seq<Input> {
    messages.map_values(
        |members: Map<Seq<char>, JsonView>|
            Input::Report { gen, ev: events_of(JsonView::Object(members))[0], log, mode },
    )
}

/// What streams in is what the messages bring, character for character and in their order.
pub proof fn law_messages_stream_in(
    tab: TabView,
    messages: Seq<Map<Seq<char>, JsonView>>,
    texts: Seq<Seq<char>>,
    log: Seq<char>,
    mode: u32,
)
    requires
        messages.len() == texts.len(),
        forall|i: int|
            0 <= i < messages.len() ==> is_piece(#[trigger] messages[i], texts[i])
                && texts[i].len() > 0,
    ensures
        run(tab, message_reports(tab.gen, messages, log, mode)).stream == tab.stream + pieces(
            texts,
        ),
{
    let told = message_reports(tab.gen, messages, log, mode);
    let expected = piece_reports(tab.gen, texts, log, mode);
    assert forall|i: int| 0 <= i < told.len() implies told[i] == expected[i] by {
        law_piece_is_verbatim(messages[i], texts[i]);
    }
    assert(told =~= expected);
    law_reply_streams_in(tab, texts, log, mode);
}

/// A reply comes into the transcript character for character, as the assistant's message.
pub proof fn law_reply_reaches_the_transcript(
    tab: TabView,
    members: Map<Seq<char>, JsonView>,
    reply: Seq<char>,
    log: Seq<char>,
    mode: u32,
)
    requires
        text_in(members, "type"@) == Some("result"@),
        text_in(members, "result"@) == Some(reply),
    ensures
        ({
            let ev = events_of(JsonView::Object(members))[0];
            let after = next(tab, Input::Report { gen: tab.gen, ev, log, mode }).tab;
            &&& tab.msgs.is_prefix_of(after.msgs)
            &&& after.msgs.len() > tab.msgs.len()
            &&& after.msgs[tab.msgs.len() as int] == (MessageView {
                who: Who::Assistant,
                text: reply,
            })
            &&& forall|i: int|
                tab.msgs.len() < i < after.msgs.len() ==> (#[trigger] after.msgs[i]).who
                    == Who::System
        }),
{
    law_result_message(members);
    law_reply_is_verbatim(JsonView::Object(members));
}

/// A user's message is an object of two members, and the message in it is one of two.
pub proof fn law_user_message(message: Seq<char>)
    ensures
        ({
            let outer = members_of(user_tree(message));
            let inner = object_in(outer, "message"@);
            &&& user_tree(message) is Object
            &&& outer.dom() == set!["type"@, "message"@]
            &&& text_in(outer, "type"@) == Some("user"@)
            &&& inner.dom() == set!["role"@, "content"@]
            &&& text_in(inner, "role"@) == Some("user"@)
            &&& text_in(inner, "content"@) == Some(message)
        }),
{
    reveal_strlit("type");
    reveal_strlit("message");
    reveal_strlit("role");
    reveal_strlit("content");
    assert("type"@.len() != "message"@.len());
    assert("role"@.len() != "content"@.len());
    let outer = members_of(user_tree(message));
    assert(outer.dom() =~= set!["type"@, "message"@]);
    assert(object_in(outer, "message"@).dom() =~= set!["role"@, "content"@]);
}

} // verus!
