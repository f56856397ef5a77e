//! The wire format: what the program prints, line by line, and what it is told.

use crate::json::{
    as_array, as_str, as_u64, items_of, json_of, json_text, lemma_two_names, member, member_of,
    member_pairs, object_value, parse_json, plain, seen, str_of, text_value, trees, u64_of,
    value_text, value_tree, Json, JsonView,
};
use crate::paths::{parent, parent_of};
use crate::text::{
    add_text, digest, on_one_line, same, shortened, text_or, trim, trimmed, with_text,
};
use serde_json::Value;
use vstd::prelude::*;

verus! {

/// The tokens that a turn took.
#[derive(Clone, Copy, Debug, PartialEq, Eq)]
pub struct Usage {
    pub input: u64,
    pub cache_create: u64,
    pub cache_read: u64,
    pub output: u64,
}

/// What a turn ended with.
#[derive(Debug, PartialEq, Eq)]
pub struct TurnResult {
    pub result: String,
    pub session_id: Option<String>,
    pub usage: Usage,
    /// What the turn was not allowed to do, in words.
    pub denials: Vec<String>,
    /// The folders of the files that it was not allowed to touch.
    pub denied_dirs: Vec<String>,
}

/// `TurnResult` over sequences.
pub struct TurnView {
    pub result: Seq<char>,
    pub session_id: Option<Seq<char>>,
    pub usage: Usage,
    pub denials: Seq<Seq<char>>,
    pub denied_dirs: Seq<Seq<char>>,
}

impl DeepView for TurnResult {
    type V = TurnView;

    open spec fn deep_view(&self) -> TurnView {
        TurnView {
            result: self.result@,
            session_id: self.session_id.deep_view(),
            usage: self.usage,
            denials: self.denials.deep_view(),
            denied_dirs: self.denied_dirs.deep_view(),
        }
    }
}

/// What a running program reports.
#[derive(Debug, PartialEq, Eq)]
pub enum Ev {
    /// The program is up: the model actually in use, and the session.
    Init { model: Option<String>, session_id: Option<String> },
    /// A piece of the reply.
    Delta(String),
    /// A tool at work.
    Tool(String),
    Thinking,
    /// The turn is over.
    Turn(TurnResult),
    /// The program is gone.
    Ended(String),
}

/// Why a program is gone whose output has come to its end.
pub const STREAM_CLOSED: &'static str = "stream closed";

/// `Ev` over sequences.
pub enum EvView {
    Init { model: Option<Seq<char>>, session_id: Option<Seq<char>> },
    Delta(Seq<char>),
    Tool(Seq<char>),
    Thinking,
    Turn(TurnView),
    Ended(Seq<char>),
}

impl DeepView for Ev {
    type V = EvView;

    open spec fn deep_view(&self) -> EvView {
        match self {
            Ev::Init { model, session_id } => EvView::Init {
                model: model.deep_view(),
                session_id: session_id.deep_view(),
            },
            Ev::Delta(text) => EvView::Delta(text@),
            Ev::Tool(label) => EvView::Tool(label@),
            Ev::Thinking => EvView::Thinking,
            Ev::Turn(turn) => EvView::Turn(turn.deep_view()),
            Ev::Ended(why) => EvView::Ended(why@),
        }
    }
}

/// The text of the member `key`.
pub open spec fn str_at(value: Option<JsonView>, key: Seq<char>) -> Option<Seq<char>> {
    str_of(member_of(value, key))
}

/// The text of the member `key`, if it has one.
fn str_member<'a>(value: Option<&'a Json>, key: &str) -> (res: Option<&'a str>)
    ensures
        res.deep_view() == str_at(seen(value), key@),
{
    as_str(member(value, key))
}

/// The text of the member `key` as a text of its own.
fn owned_member(value: Option<&Json>, key: &str) -> (res: Option<String>)
    ensures
        res.deep_view() == str_at(seen(value), key@),
{
    match str_member(value, key) {
        Some(text) => Some(text.to_owned()),
        None => None,
    }
}

/// The text of the member `key`, or another in its place.
fn member_or<'a>(value: Option<&'a Json>, key: &str, other: &'a str) -> (res: &'a str)
    ensures
        res@ == text_or(str_at(seen(value), key@), other@),
{
    match str_member(value, key) {
        Some(text) => text,
        None => other,
    }
}

/// Whether the member `key` is the text `want`.
fn member_is(value: Option<&Json>, key: &str, want: &str) -> (res: bool)
    ensures
        res == (str_at(seen(value), key@) == Some(want@)),
{
    match str_member(value, key) {
        Some(text) => same(text, want),
        None => false,
    }
}

/// A count of tokens in the `usage` of a result; none counts as zero.
pub open spec fn tokens_of(value: JsonView, key: Seq<char>) -> u64 {
    match u64_of(member_of(member_of(Some(value), "usage"@), key)) {
        Some(n) => n,
        None => 0,
    }
}

/// `tokens_of` as code.
fn tokens(value: &Json, key: &str) -> (n: u64)
    ensures
        n == tokens_of(value@, key@),
{
    match as_u64(member(member(Some(value), "usage"), key)) {
        Some(n) => n,
        None => 0,
    }
}

/// The refusals that a result lists.
pub open spec fn refusals(value: JsonView) -> Seq<JsonView> {
    match items_of(member_of(Some(value), "permission_denials"@)) {
        Some(items) => items,
        None => Seq::empty(),
    }
}

/// The command line that was refused, or the empty text.
pub open spec fn refused_command(refusal: JsonView) -> Seq<char> {
    text_or(str_at(member_of(Some(refusal), "tool_input"@), "command"@), ""@)
}

/// The file that was refused, or the empty text.
pub open spec fn refused_file(refusal: JsonView) -> Seq<char> {
    text_or(str_at(member_of(Some(refusal), "tool_input"@), "file_path"@), ""@)
}

/// A refusal in words: the tool, and the command line or else the file it was for.
pub open spec fn denial_text(refusal: JsonView) -> Seq<char> {
    let tool = text_or(str_at(Some(refusal), "tool_name"@), "?"@);
    let command = refused_command(refusal);
    let file = refused_file(refusal);
    if command.len() > 0 {
        tool + ": "@ + command
    } else if file.len() > 0 {
        tool + " -> "@ + file
    } else {
        tool
    }
}

/// The folder that would have to be opened up for a refused file. A refused command line asks for
/// none, and neither does a file whose path names no folder.
pub open spec fn denied_dir(refusal: JsonView) -> Option<Seq<char>> {
    let file = refused_file(refusal);
    if refused_command(refusal).len() > 0 || file.len() == 0 {
        None
    } else {
        match parent_of(file) {
            Some(dir) => if dir.len() > 0 {
                Some(dir)
            } else {
                None
            },
            None => None,
        }
    }
}

/// The folders for a list of refusals, each once, in the order in which they come up.
pub open spec fn denied_dirs(refused: Seq<JsonView>) -> Seq<Seq<char>>
    decreases refused.len(),
{
    if refused.len() == 0 {
        Seq::empty()
    } else {
        let before = denied_dirs(refused.drop_last());
        match denied_dir(refused.last()) {
            Some(dir) => with_text(before, dir),
            None => before,
        }
    }
}

/// What a `result` message says of its turn.
pub open spec fn turn_of(value: JsonView) -> TurnView {
    TurnView {
        result: text_or(str_at(Some(value), "result"@), "(empty response)"@),
        session_id: str_at(Some(value), "session_id"@),
        usage: Usage {
            input: tokens_of(value, "input_tokens"@),
            cache_create: tokens_of(value, "cache_creation_input_tokens"@),
            cache_read: tokens_of(value, "cache_read_input_tokens"@),
            output: tokens_of(value, "output_tokens"@),
        },
        denials: refusals(value).map_values(|refusal: JsonView| denial_text(refusal)),
        denied_dirs: denied_dirs(refusals(value)),
    }
}

/// Reads a `result` message.
pub fn parse_result(value: &Json) -> (turn: TurnResult)
    ensures
        turn.deep_view() == turn_of(value@),
{
    let top = Some(value);
    let result = member_or(top, "result", "(empty response)").to_owned();
    let session_id = owned_member(top, "session_id");
    let usage = Usage {
        input: tokens(value, "input_tokens"),
        cache_create: tokens(value, "cache_creation_input_tokens"),
        cache_read: tokens(value, "cache_read_input_tokens"),
        output: tokens(value, "output_tokens"),
    };
    let mut denials: Vec<String> = Vec::new();
    let mut dirs: Vec<String> = Vec::new();
    let ghost refused = refusals(value@);
    let ghost words = refused.map_values(|refusal: JsonView| denial_text(refusal));
    proof {
        assert(denials.deep_view() =~= words.take(0));
        assert(dirs.deep_view() =~= denied_dirs(refused.take(0)));
    }
    if let Some(list) = as_array(member(top, "permission_denials")) {
        for i in 0..list.len()
            invariant
                refused == trees(list@),
                words == refused.map_values(|refusal: JsonView| denial_text(refusal)),
                denials.deep_view() == words.take(i as int),
                dirs.deep_view() == denied_dirs(refused.take(i as int)),
        {
            let refusal = &list[i];
            proof {
                assert(refused[i as int] == refusal@);
                assert(refused.take(i + 1).drop_last() =~= refused.take(i as int));
                assert(words.take(i + 1) =~= words.take(i as int).push(denial_text(refusal@)));
            }
            let tool = member_or(Some(refusal), "tool_name", "?");
            let input = member(Some(refusal), "tool_input");
            let file = member_or(input, "file_path", "");
            let command = member_or(input, "command", "");
            proof {
                reveal_strlit("");
            }
            let mut text = tool.to_owned();
            if !command.is_empty() {
                text.append(": ");
                text.append(command);
            } else if !file.is_empty() {
                text.append(" -> ");
                text.append(file);
                if let Some(dir) = parent(file) {
                    if !dir.as_str().is_empty() {
                        add_text(&mut dirs, dir);
                    }
                }
            }
            let ghost before = denials.deep_view();
            denials.push(text);
            proof {
                assert(denials.deep_view() =~= before.push(text@));
            }
        }
        proof {
            assert(words.take(words.len() as int) =~= words);
            assert(refused.take(refused.len() as int) =~= refused);
        }
    } else {
        proof {
            assert(words.take(0) =~= words);
            assert(refused.take(0) =~= refused);
        }
    }
    TurnResult { result, session_id, usage, denials, denied_dirs: dirs }
}

/// The longest piece of a tool's target that its label shows.
pub const TARGET_LIMIT: usize = 120;

/// What a tool works on: a command line, or else a file, or else a path.
pub open spec fn tool_target(block: JsonView) -> Seq<char> {
    let input = member_of(Some(block), "input"@);
    match str_at(input, "command"@) {
        Some(command) => command,
        None => match str_at(input, "file_path"@) {
            Some(file) => file,
            None => text_or(str_at(input, "path"@), ""@),
        },
    }
}

/// The target as a label shows it: on one line, and cut where it is long.
pub open spec fn shown_target(block: JsonView) -> Seq<char> {
    shortened(on_one_line(tool_target(block)), TARGET_LIMIT as nat)
}

/// The label of a tool at work.
pub open spec fn tool_label(block: JsonView) -> Seq<char> {
    let name = text_or(str_at(Some(block), "name"@), "tool"@);
    let target = shown_target(block);
    if target.len() == 0 {
        "🔧 "@ + name
    } else {
        "🔧 "@ + name + ": "@ + target
    }
}

/// `tool_label` as code.
fn label_tool(block: &Json) -> (label: String)
    ensures
        label@ == tool_label(block@),
{
    let name = member_or(Some(block), "name", "tool");
    let input = member(Some(block), "input");
    let target = match str_member(input, "command") {
        Some(command) => command,
        None => match str_member(input, "file_path") {
            Some(file) => file,
            None => member_or(input, "path", ""),
        },
    };
    let target = digest(target, TARGET_LIMIT);
    let mut label = "🔧 ".to_owned();
    label.append(name);
    if !target.as_str().is_empty() {
        label.append(": ");
        label.append(target.as_str());
    }
    label
}

/// Whether a block of a reply is the use of a tool.
pub open spec fn uses_tool(block: JsonView) -> bool {
    str_at(Some(block), "type"@) == Some("tool_use"@)
}

/// One report for each tool that the blocks of a reply use, in their order.
pub open spec fn tool_events(blocks: Seq<JsonView>) -> Seq<EvView> {
    blocks.filter(|block: JsonView| uses_tool(block)).map_values(
        |block: JsonView| EvView::Tool(tool_label(block)),
    )
}

/// The blocks of an `assistant` message.
pub open spec fn blocks_of(value: JsonView) -> Seq<JsonView> {
    match items_of(member_of(member_of(Some(value), "message"@), "content"@)) {
        Some(blocks) => blocks,
        None => Seq::empty(),
    }
}

/// The change that a `stream_event` message brings to a block, if it brings one.
pub open spec fn delta_of(value: JsonView) -> Option<JsonView> {
    let event = member_of(Some(value), "event"@);
    if str_at(event, "type"@) == Some("content_block_delta"@) {
        member_of(event, "delta"@)
    } else {
        None
    }
}

/// What a `stream_event` message reports: new text that is not empty, or thinking.
pub open spec fn stream_events(value: JsonView) -> Seq<EvView> {
    let delta = delta_of(value);
    let kind = str_at(delta, "type"@);
    if kind == Some("text_delta"@) {
        match str_at(delta, "text"@) {
            Some(text) => if text.len() > 0 {
                seq![EvView::Delta(text)]
            } else {
                Seq::empty()
            },
            None => Seq::empty(),
        }
    } else if kind == Some("thinking_delta"@) {
        seq![EvView::Thinking]
    } else {
        Seq::empty()
    }
}

/// What a message reports. A message of any other kind reports nothing.
pub open spec fn events_of(value: JsonView) -> Seq<EvView> {
    let kind = str_at(Some(value), "type"@);
    if kind == Some("system"@) && str_at(Some(value), "subtype"@) == Some("init"@) {
        seq![
            EvView::Init {
                model: str_at(Some(value), "model"@),
                session_id: str_at(Some(value), "session_id"@),
            },
        ]
    } else if kind == Some("result"@) {
        seq![EvView::Turn(turn_of(value))]
    } else if kind == Some("assistant"@) {
        tool_events(blocks_of(value))
    } else if kind == Some("stream_event"@) {
        stream_events(value)
    } else {
        Seq::empty()
    }
}

/// What a line of output reports: nothing where it is blank or no JSON.
pub open spec fn line_events(line: Seq<char>) -> Seq<EvView> {
    match json_of(line) {
        Some(value) if trimmed(line).len() > 0 => events_of(value),
        _ => Seq::empty(),
    }
}

/// `tool_events` as code.
fn read_tools(blocks: &Vec<Json>) -> (events: Vec<Ev>)
    ensures
        events.deep_view() == tool_events(trees(blocks@)),
{
    let mut events: Vec<Ev> = Vec::new();
    let ghost all = trees(blocks@);
    let ghost used = |block: JsonView| uses_tool(block);
    proof {
        assert(all.take(0).filter(used) =~= Seq::empty()) by {
            reveal(Seq::filter);
        }
        assert(events.deep_view() =~= tool_events(all.take(0)));
    }
    for i in 0..blocks.len()
        invariant
            all == trees(blocks@),
            events.deep_view() == tool_events(all.take(i as int)),
    {
        let block = &blocks[i];
        let ghost before = events.deep_view();
        proof {
            let used = |block: JsonView| uses_tool(block);
            assert(all[i as int] == block@);
            assert(all.take(i + 1).drop_last() =~= all.take(i as int));
            assert(all.take(i + 1).filter(used) == if used(block@) {
                all.take(i as int).filter(used).push(block@)
            } else {
                all.take(i as int).filter(used)
            }) by {
                reveal(Seq::filter);
            }
        }
        if member_is(Some(block), "type", "tool_use") {
            let label = label_tool(block);
            events.push(Ev::Tool(label));
            proof {
                assert(events.deep_view() =~= before.push(EvView::Tool(label@)));
                assert(tool_events(all.take(i + 1)) =~= before.push(EvView::Tool(label@)));
            }
        }
    }
    proof {
        assert(all.take(all.len() as int) =~= all);
    }
    events
}

/// `stream_events` as code.
fn read_stream(value: &Json) -> (events: Vec<Ev>)
    ensures
        events.deep_view() == stream_events(value@),
{
    let mut events: Vec<Ev> = Vec::new();
    let event = member(Some(value), "event");
    let delta = if member_is(event, "type", "content_block_delta") {
        member(event, "delta")
    } else {
        None
    };
    if member_is(delta, "type", "text_delta") {
        if let Some(text) = str_member(delta, "text") {
            if !text.is_empty() {
                events.push(Ev::Delta(text.to_owned()));
            }
        }
    } else if member_is(delta, "type", "thinking_delta") {
        events.push(Ev::Thinking);
    }
    proof {
        assert(events.deep_view() =~= stream_events(value@));
    }
    events
}

/// Reads a message.
pub fn read_message(value: &Json) -> (events: Vec<Ev>)
    ensures
        events.deep_view() == events_of(value@),
{
    let top = Some(value);
    let mut events: Vec<Ev> = Vec::new();
    if member_is(top, "type", "system") && member_is(top, "subtype", "init") {
        events.push(
            Ev::Init {
                model: owned_member(top, "model"),
                session_id: owned_member(top, "session_id"),
            },
        );
    } else if member_is(top, "type", "result") {
        events.push(Ev::Turn(parse_result(value)));
    } else if member_is(top, "type", "assistant") {
        if let Some(blocks) = as_array(member(member(top, "message"), "content")) {
            return read_tools(blocks);
        }
        proof {
            assert(tool_events(Seq::empty()) =~= Seq::empty()) by {
                reveal(Seq::filter);
            }
        }
    } else if member_is(top, "type", "stream_event") {
        return read_stream(value);
    }
    proof {
        assert(events.deep_view() =~= events_of(value@));
    }
    events
}

/// Reads a line of the program's output.
pub fn read_line(line: &str) -> (events: Vec<Ev>)
    ensures
        events.deep_view() == line_events(line@),
{
    if !trim(line).as_str().is_empty() {
        if let Some(value) = parse_json(line) {
            return read_message(&value);
        }
    }
    let events: Vec<Ev> = Vec::new();
    proof {
        assert(events.deep_view() =~= line_events(line@));
    }
    events
}

/// What a user's message is on the wire.
pub open spec fn user_tree(message: Seq<char>) -> JsonView {
    JsonView::Object(
        map![
            "type"@ => JsonView::Str("user"@),
            "message"@ => JsonView::Object(
                map![
                    "role"@ => JsonView::Str("user"@),
                    "content"@ => JsonView::Str(message),
                ],
            ),
        ],
    )
}

/// The line that hands the program a user's message.
pub fn user_line(message: &str) -> (line: String)
    ensures
        line@ == json_text(user_tree(message@)),
        !line@.contains('\n'),
        json_of(line@) == Some(user_tree(message@)),
{
    let mut inner: Vec<(String, Value)> = Vec::new();
    inner.push(("role".to_owned(), text_value("user")));
    inner.push(("content".to_owned(), text_value(message)));
    proof {
        reveal_strlit("role");
        reveal_strlit("content");
        reveal_strlit("type");
        reveal_strlit("message");
        assert("role"@.len() != "content"@.len());
        assert("type"@.len() != "message"@.len());
        let role = ("role"@, JsonView::Str("user"@));
        let content = ("content"@, JsonView::Str(message@));
        lemma_two_names(role, content);
        assert(member_pairs(inner@) =~= seq![role, content]);
    }
    let inner = object_value(inner);
    let mut outer: Vec<(String, Value)> = Vec::new();
    outer.push(("type".to_owned(), text_value("user")));
    outer.push(("message".to_owned(), inner));
    proof {
        let kind = ("type"@, JsonView::Str("user"@));
        let body = ("message"@, value_tree(inner));
        lemma_two_names(kind, body);
        assert(member_pairs(outer@) =~= seq![kind, body]);
    }
    let outer = object_value(outer);
    proof {
        reveal_with_fuel(plain, 3);
        assert(plain(value_tree(inner), 126));
    }
    value_text(&outer)
}

} // verus!
