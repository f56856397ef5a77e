//! What is written at the input line: commands, and everything else.

use crate::commands::{
    command_called, command_table, help_lines, help_text, row_called, row_line, CmdView,
};
use crate::names::Who;
use crate::session::{flags_text, mode_text, status, usage_text, SessionView};
use crate::tab::{command_step, send, submit_step, with_message, ActionView, TabView};
use crate::text::{
    before_spaces, first_word, is_space_char, leads_with, next_space, on_one_line, past_spaces,
    text_or, trimmed,
};
use vstd::prelude::*;

verus! {

/// The names of commands begin with a slash, hold no white space, and are all different.
pub proof fn lemma_names()
    ensures
        forall|i: int|
            0 <= i < command_table().len() ==> {
                &&& (#[trigger] command_table()[i]).name.len() > 0
                &&& command_table()[i].name[0] == '/'
                &&& forall|k: int|
                    0 <= k < command_table()[i].name.len() ==> !is_space_char(
                        #[trigger] command_table()[i].name[k],
                    )
            },
        forall|i: int, j: int|
            0 <= i < j < command_table().len() ==> command_table()[i].name
                != command_table()[j].name,
{
    reveal_strlit("/model");
    reveal_strlit("/permission-mode");
    reveal_strlit("/clear");
    reveal_strlit("/status");
    reveal_strlit("/help");
    assert("/model"@[1] != "/clear"@[1]);
    let rows = command_table();
    assert(rows[0].name != rows[2].name);
    assert forall|i: int, j: int| 0 <= i < j < rows.len() implies rows[i].name != rows[j].name by {
        assert(rows[i].name.len() != rows[j].name.len() || (i == 0 && j == 2));
    }
}

proof fn lemma_row_called(rows: Seq<CmdView>, i: int)
    requires
        0 <= i < rows.len(),
        forall|j: int| 0 <= j < i ==> (#[trigger] rows[j]).name != rows[i].name,
    ensures
        row_called(rows, rows[i].name) == Some(rows[i]),
    decreases i,
{
    if i > 0 {
        let rest = rows.drop_first();
        assert forall|j: int| 0 <= j < i - 1 implies (#[trigger] rest[j]).name
            != rest[i - 1].name by {
            assert(rest[j] == rows[j + 1]);
        }
        lemma_row_called(rest, i - 1);
    }
}

/// Every row of the table is found by its name.
pub proof fn law_every_command_is_found(i: int)
    requires
        0 <= i < command_table().len(),
    ensures
        command_called(command_table()[i].name) == Some(command_table()[i]),
{
    lemma_names();
    lemma_row_called(command_table(), i);
}

proof fn lemma_no_spaces_around(s: Seq<char>)
    requires
        s.len() > 0,
        !is_space_char(s[0]),
        !is_space_char(s.last()),
    ensures
        past_spaces(s, 0) == 0,
        trimmed(s) == s,
{
    assert(s.subrange(0, s.len() as int) =~= s);
}

proof fn lemma_next_space(s: Seq<char>, from: int, end: int)
    requires
        0 <= from <= end <= s.len(),
        forall|k: int| from <= k < end ==> !is_space_char(#[trigger] s[k]),
        end < s.len() ==> is_space_char(s[end]),
    ensures
        next_space(s, from) == end,
    decreases end - from,
{
    if from < end {
        lemma_next_space(s, from + 1, end);
    }
}

/// A command is carried out with its argument as it stands: any text without white space at its
/// ends, behind the command's name and one space.
pub proof fn law_command_with_argument(
    tab: TabView,
    i: int,
    arg: Seq<char>,
    mode: u32,
)
    requires
        0 <= i < command_table().len(),
        arg.len() > 0,
        !is_space_char(arg[0]),
        !is_space_char(arg.last()),
    ensures
        ({
            let row = command_table()[i];
            let step = submit_step(tab, row.name + seq![' '] + arg, mode);
            let done = command_step(tab, row, arg, mode);
            step.tab == done.tab && step.actions == done.actions.push(ActionView::ClearEntry)
        }),
{
    lemma_names();
    law_every_command_is_found(i);
    let row = command_table()[i];
    let text = row.name + seq![' '] + arg;
    let end = row.name.len() as int;
    assert(text[0] == row.name[0]);
    assert(text.last() == arg.last());
    lemma_no_spaces_around(text);
    assert forall|k: int| 0 <= k < end implies !is_space_char(#[trigger] text[k]) by {
        assert(text[k] == row.name[k]);
    }
    lemma_next_space(text, 0, end);
    assert(text.take(end) =~= row.name);
    assert(text.skip(end + 1) =~= arg);
    lemma_no_spaces_around(arg);
}

/// A command's name alone carries it out without an argument.
pub proof fn law_command_alone(tab: TabView, i: int, mode: u32)
    requires
        0 <= i < command_table().len(),
    ensures
        ({
            let row = command_table()[i];
            let step = submit_step(tab, row.name, mode);
            let done = command_step(tab, row, Seq::empty(), mode);
            step.tab == done.tab && step.actions == done.actions.push(ActionView::ClearEntry)
        }),
{
    lemma_names();
    law_every_command_is_found(i);
    let name = command_table()[i].name;
    assert(!is_space_char(name[name.len() - 1]));
    lemma_no_spaces_around(name);
    lemma_next_space(name, 0, name.len() as int);
    assert(name.take(name.len() as int) =~= name);
}

/// A command is never sent to the program as a message.
pub proof fn law_commands_are_not_sent(tab: TabView, text: Seq<char>, mode: u32, i: int)
    requires
        leads_with(text, '/'),
        command_called(first_word(trimmed(text))) is Some,
        0 <= i < submit_step(tab, text, mode).actions.len(),
    ensures
        !(submit_step(tab, text, mode).actions[i] is Send),
{
}

proof fn lemma_before_spaces(s: Seq<char>, from: int, to: int)
    requires
        0 <= from < to <= s.len(),
        !is_space_char(s[from]),
    ensures
        from < before_spaces(s, from, to) <= to,
    decreases to - from,
{
    if is_space_char(s[to - 1]) {
        lemma_before_spaces(s, from, to - 1);
    }
}

proof fn lemma_past_spaces(s: Seq<char>, from: int)
    requires
        0 <= from <= s.len(),
    ensures
        from <= past_spaces(s, from) <= s.len(),
    decreases s.len() - from,
{
    if from < s.len() && is_space_char(s[from]) {
        lemma_past_spaces(s, from + 1);
    }
}

/// An unknown command is not swallowed: it is sent to a running program as it stands.
pub proof fn law_unknown_commands_are_sent(tab: TabView, text: Seq<char>, mode: u32)
    requires
        leads_with(text, '/'),
        command_called(first_word(trimmed(text))) is None,
        tab.sess.running,
    ensures
        submit_step(tab, text, mode).tab == with_message(tab, Who::You, text),
        submit_step(tab, text, mode).actions == seq![
            ActionView::ClearEntry,
            ActionView::Render,
            send(text),
        ],
{
    lemma_past_spaces(text, 0);
    lemma_before_spaces(text, past_spaces(text, 0), text.len() as int);
}

/// A command that is answered on the spot adds one message to the transcript, and does nothing
/// else.
pub proof fn law_local_commands(tab: TabView, command: CmdView, arg: Seq<char>, mode: u32)
    requires
        command.route is Local,
    ensures
        ({
            let step = command_step(tab, command, arg, mode);
            &&& step.tab.msgs.len() == tab.msgs.len() + 1
            &&& step.tab.msgs.last().who == Who::System
            &&& step.tab == (TabView { msgs: tab.msgs.push(step.tab.msgs.last()), ..tab })
            &&& step.actions == seq![ActionView::Render]
        }),
{
}

/// Whether `part` stands somewhere in `text`.
pub open spec fn shows(text: Seq<char>, part: Seq<char>) -> bool {
    exists|at: int|
        0 <= at <= text.len() - part.len() && #[trigger] text.subrange(at, at + part.len()) == part
}

/// What stands between two texts is shown.
pub proof fn lemma_shows(before: Seq<char>, part: Seq<char>, after: Seq<char>)
    ensures
        shows(before + part + after, part),
{
    let text = before + part + after;
    let at = before.len() as int;
    assert(text.subrange(at, at + part.len()) =~= part);
}

proof fn lemma_help_lines(rows: Seq<CmdView>, i: int)
    requires
        0 <= i < rows.len(),
    ensures
        exists|before: Seq<char>, after: Seq<char>|
            help_lines(rows) == #[trigger] (before + row_line(rows[i]) + after),
    decreases rows.len(),
{
    let rest = rows.drop_last();
    if i == rows.len() - 1 {
        assert(help_lines(rows) =~= help_lines(rest) + row_line(rows[i]) + Seq::<char>::empty());
    } else {
        lemma_help_lines(rest, i);
        let (before, after) = choose|before: Seq<char>, after: Seq<char>|
            help_lines(rest) == #[trigger] (before + row_line(rest[i]) + after);
        assert(help_lines(rows) =~= before + row_line(rows[i]) + (after + row_line(rows.last())));
    }
}

/// The help text shows every row of the table.
pub proof fn law_help_shows_every_command(label: Seq<char>, i: int)
    requires
        0 <= i < command_table().len(),
    ensures
        shows(help_text(label), row_line(command_table()[i])),
{
    let rows = command_table();
    lemma_help_lines(rows, i);
    let (before, after) = choose|before: Seq<char>, after: Seq<char>|
        help_lines(rows) == #[trigger] (before + row_line(rows[i]) + after);
    let first = "Commands — anything else starting with / is sent to "@ + label + " verbatim:\n"@;
    let last =
        "\nThe GUI does not validate values — the CLI does. /context and /cost are intentionally not provided (see DESIGN.md)."@;
    lemma_shows(first + before, row_line(rows[i]), after + last);
    assert(help_text(label) =~= first + before + row_line(rows[i]) + (after + last));
}

/// The help text begins by saying who unknown commands are sent to.
pub proof fn law_help_names_the_assistant(label: Seq<char>)
    ensures
        ("Commands — anything else starting with / is sent to "@ + label
            + " verbatim:\n"@).is_prefix_of(help_text(label)),
{
    let first = "Commands — anything else starting with / is sent to "@ + label + " verbatim:\n"@;
    assert(first =~= help_text(label).take(first.len() as int));
}

proof fn lemma_shows_on_one_line(before: Seq<char>, part: Seq<char>, after: Seq<char>)
    ensures
        shows(on_one_line(before + part + after), on_one_line(part)),
{
    let line = on_one_line(before) + on_one_line(part) + on_one_line(after);
    lemma_shows(on_one_line(before), on_one_line(part), on_one_line(after));
    assert(on_one_line(before + part + after) =~= line);
}

/// The status is one line, which shows the model, the session's id, the permission mode and the
/// tokens of the last turn.
pub proof fn law_status_is_one_line(session: SessionView, mode: u32)
    ensures
        !status(session, mode).contains('\n'),
        session.model matches Some(model) ==> shows(status(session, mode), on_one_line(model)),
        session.session_id matches Some(id) ==> shows(status(session, mode), on_one_line(id)),
        shows(status(session, mode), on_one_line(mode_text(session, mode))),
        shows(status(session, mode), on_one_line(usage_text(session.last_usage))),
{
    let model = text_or(session.model, "(unknown — send a message first)"@);
    let id = text_or(session.session_id, "(none yet)"@);
    let pm = mode_text(session, mode);
    let flags = flags_text(session.overrides);
    let usage = usage_text(session.last_usage);
    let a = "Status · model: "@;
    let b = " · session: "@;
    let c = " · permission-mode: "@;
    let d = " · overrides: "@;
    let e = " · "@;
    let whole = a + model + b + id + c + pm + d + flags + e + usage;
    assert(whole =~= a + model + (b + id + c + pm + d + flags + e + usage));
    lemma_shows_on_one_line(a, model, b + id + c + pm + d + flags + e + usage);
    assert(whole =~= a + model + b + id + (c + pm + d + flags + e + usage));
    lemma_shows_on_one_line(a + model + b, id, c + pm + d + flags + e + usage);
    assert(whole =~= a + model + b + id + c + pm + (d + flags + e + usage));
    lemma_shows_on_one_line(a + model + b + id + c, pm, d + flags + e + usage);
    assert(whole =~= a + model + b + id + c + pm + d + flags + e + usage + Seq::<char>::empty());
    lemma_shows_on_one_line(a + model + b + id + c + pm + d + flags + e, usage, Seq::empty());
}

} // verus!
