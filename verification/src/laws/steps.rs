//! What each thing that happens does to a tab: what changes, what is to be done, and what stays.

use crate::commands::{command_table, help_text, row_called, CmdView, Local, RouteView};
use crate::json::json_text;
use crate::laws::commands::{law_every_command_is_found, lemma_names, shows};
use crate::laws::flags::law_set_flag;
use crate::laws::launching::law_status_says;
use crate::laws::machine::{next, Input};
use crate::laws::rollback::relaunched;
use crate::laws::words::{
    blank, is_word, law_first_word, law_leads_with, law_log_message, law_trimmed,
    law_trimmed_blank, trim_text,
};
use crate::names::{MessageView, Who};
use crate::session::{flag_value, launch_args, status, SessionView};
use crate::tab::{command_step, granted, ActionView, PasteError, Step, TabView};
use crate::text::{is_space_char, joined, on_one_line, rest_of_words, trimmed};
use crate::wire::{user_tree, EvView, TurnView};
use vstd::prelude::*;

verus! {

/// The transcript with one more message.
pub open spec fn and_then(
    messages: Seq<MessageView>,
    who: Who,
    text: Seq<char>,
) -> Seq<MessageView> {
    messages.push(MessageView { who, text })
}

/// The step adds a message from the system, which is shown, and does nothing else.
pub open spec fn only_tells(step: Step, tab: TabView, text: Seq<char>) -> bool {
    &&& step.tab == (TabView { msgs: and_then(tab.msgs, Who::System, text), ..tab })
    &&& step.actions == seq![ActionView::Render]
}

/// The generation behind `gen`: they are counted, and come round.
pub open spec fn successor(gen: u64) -> int {
    if gen == u64::MAX {
        0
    } else {
        gen + 1
    }
}

/// The launch of a program for the tab as it is, with the mode list at a row.
pub open spec fn launched_for(tab: TabView, mode: u32, accept_edits: bool) -> ActionView {
    ActionView::Spawn { gen: tab.gen, args: launch_args(tab.sess, mode, accept_edits) }
}

/// What a program of another generation reports does nothing.
pub proof fn law_other_generation(
    tab: TabView,
    gen: u64,
    ev: EvView,
    log: Seq<char>,
    mode: u32,
)
    requires
        gen != tab.gen,
    ensures
        ({
            let step = next(tab, Input::Report { gen, ev, log, mode });
            step.tab == tab && step.actions.len() == 0
        }),
{
}

/// An init report: the model and the session are exactly those that it names, whatever they were;
/// one that it does not name stays. Where a command is under way, its flags are good from now on.
/// Nothing else changes, and nothing is to be done.
pub proof fn law_init_report(
    tab: TabView,
    model: Option<Seq<char>>,
    session_id: Option<Seq<char>>,
    log: Seq<char>,
    mode: u32,
)
    ensures
        ({
            let ev = EvView::Init { model, session_id };
            let step = next(tab, Input::Report { gen: tab.gen, ev, log, mode });
            let sess = step.tab.sess;
            &&& model is Some ==> sess.model == model
            &&& model is None ==> sess.model == tab.sess.model
            &&& session_id is Some ==> sess.session_id == session_id
            &&& session_id is None ==> sess.session_id == tab.sess.session_id
            &&& !sess.cmd_pending
            &&& tab.sess.cmd_pending ==> sess.good_overrides == tab.sess.overrides
                && !sess.cmd_recovering
            &&& !tab.sess.cmd_pending ==> sess.good_overrides == tab.sess.good_overrides
                && sess.cmd_recovering == tab.sess.cmd_recovering
            &&& step.tab == (TabView {
                sess: SessionView {
                    model: sess.model,
                    session_id: sess.session_id,
                    good_overrides: sess.good_overrides,
                    cmd_pending: sess.cmd_pending,
                    cmd_recovering: sess.cmd_recovering,
                    ..tab.sess
                },
                ..tab
            })
            &&& step.actions.len() == 0
        }),
{
}

/// What a flag's command tells without an argument: for the model the one that the program named,
/// for any other flag the value that was set, and the usage. Nothing else changes.
pub proof fn law_bare_flag_command(tab: TabView, command: CmdView, flag: Seq<char>, mode: u32)
    requires
        command.route == RouteView::RespawnFlag(flag),
    ensures
        ({
            let known = if flag == "--model"@ {
                tab.sess.model
            } else {
                flag_value(tab.sess.overrides, flag)
            };
            let current = match known {
                Some(value) => value,
                None => "(CLI default)"@,
            };
            only_tells(
                command_step(tab, command, Seq::empty(), mode),
                tab,
                command.name + ": current = "@ + current + "\nUsage: "@ + command.usage,
            )
        }),
{
}

/// A model that a command switched to is told: once the program has come up with it, the bare
/// command and the status name the model that the program reported.
pub proof fn law_switched_model_is_told(
    tab: TabView,
    arg: Seq<char>,
    mode: u32,
    model: Seq<char>,
    session_id: Option<Seq<char>>,
    log: Seq<char>,
    later: u32,
)
    requires
        tab.sess.workdir is Some,
        arg.len() > 0,
    ensures
        ({
            let command = command_table()[0];
            let tried = relaunched(tab, command, arg, mode);
            let ev = EvView::Init { model: Some(model), session_id };
            let up = next(tried, Input::Report { gen: tried.gen, ev, log, mode: later }).tab;
            &&& command.name == "/model"@
            &&& only_tells(
                command_step(up, command, Seq::empty(), later),
                up,
                "/model"@ + ": current = "@ + model + "\nUsage: "@ + "/model [alias|full-id]"@,
            )
            &&& shows(
                status(up.sess, later),
                on_one_line("Status · model: "@ + model + " · session: "@),
            )
        }),
{
    let command = command_table()[0];
    let tried = relaunched(tab, command, arg, mode);
    let ev = EvView::Init { model: Some(model), session_id };
    let up = next(tried, Input::Report { gen: tried.gen, ev, log, mode: later }).tab;
    law_init_report(tried, Some(model), session_id, log, later);
    law_bare_flag_command(up, command, "--model"@, later);
    law_status_says(up.sess, later);
}

/// A flag's command with an argument: the flag has the argument as its value and the others keep
/// theirs, the change is told, and a program is launched into the same session. Nothing else
/// changes, and what was good so far is kept.
pub proof fn law_flag_command(
    tab: TabView,
    command: CmdView,
    flag: Seq<char>,
    arg: Seq<char>,
    mode: u32,
    other: Seq<char>,
)
    requires
        command.route == RouteView::RespawnFlag(flag),
        arg.len() > 0,
        tab.sess.workdir is Some,
    ensures
        ({
            let step = command_step(tab, command, arg, mode);
            let sess = step.tab.sess;
            &&& flag_value(sess.overrides, flag) == Some(arg)
            &&& other != flag ==> flag_value(sess.overrides, other) == flag_value(
                tab.sess.overrides,
                other,
            )
            &&& step.tab.gen == successor(tab.gen)
            &&& step.tab == (TabView {
                sess: SessionView {
                    overrides: sess.overrides,
                    cmd_pending: true,
                    cmd_recovering: false,
                    kept_id: tab.sess.session_id,
                    running: false,
                    ..tab.sess
                },
                msgs: and_then(
                    tab.msgs,
                    Who::System,
                    command.name + " → "@ + arg + " (restarting session; context kept)"@,
                ),
                gen: step.tab.gen,
                ..tab
            })
            &&& step.actions == seq![ActionView::Render, launched_for(step.tab, mode, false)]
        }),
{
    law_set_flag(tab.sess.overrides, flag, arg, other);
    let step = command_step(tab, command, arg, mode);
    assert(step.actions =~= seq![ActionView::Render, launched_for(step.tab, mode, false)]);
}

/// The command that clears: the session's id is dropped and what awaited approval is, the
/// transcript is one message, and a program is launched. Nothing else changes.
pub proof fn law_clear_command(tab: TabView, command: CmdView, arg: Seq<char>, mode: u32)
    requires
        command.route is Clear,
        tab.sess.workdir is Some,
    ensures
        ({
            let step = command_step(tab, command, arg, mode);
            &&& step.tab.gen == successor(tab.gen)
            &&& step.tab == (TabView {
                sess: SessionView {
                    session_id: None,
                    pending_approval: false,
                    pending_dirs: Seq::empty(),
                    cmd_pending: true,
                    cmd_recovering: false,
                    kept_id: tab.sess.session_id,
                    running: false,
                    ..tab.sess
                },
                msgs: and_then(
                    Seq::empty(),
                    Who::System,
                    "Cleared — fresh session (previous context dropped)."@,
                ),
                stream: Seq::empty(),
                gen: step.tab.gen,
                ..tab
            })
            &&& step.actions == seq![
                ActionView::Approve(false),
                ActionView::Render,
                launched_for(step.tab, mode, false),
            ]
        }),
{
    let step = command_step(tab, command, arg, mode);
    assert(step.actions =~= seq![
        ActionView::Approve(false),
        ActionView::Render,
        launched_for(step.tab, mode, false),
    ]);
}

/// Without a folder, a command that would launch the program only says so.
pub proof fn law_commands_need_a_folder(
    tab: TabView,
    command: CmdView,
    arg: Seq<char>,
    mode: u32,
)
    requires
        tab.sess.workdir is None,
        command.route is Clear || (command.route is RespawnFlag && arg.len() > 0),
    ensures
        only_tells(command_step(tab, command, arg, mode), tab, "Choose a folder first."@),
{
}

/// The commands that are answered on the spot answer with the help text and the status.
pub proof fn law_local_answers(tab: TabView, command: CmdView, arg: Seq<char>, mode: u32)
    ensures
        command.route == RouteView::Local(Local::Help) ==> only_tells(
            command_step(tab, command, arg, mode),
            tab,
            help_text(tab.names.label),
        ),
        command.route == RouteView::Local(Local::Status) ==> only_tells(
            command_step(tab, command, arg, mode),
            tab,
            status(tab.sess, mode),
        ),
{
}

/// A blank input line does nothing.
pub proof fn law_submit_blank(tab: TabView, text: Seq<char>, mode: u32)
    requires
        blank(text),
    ensures
        ({
            let step = next(tab, Input::Submit { text, mode });
            step.tab == tab && step.actions.len() == 0
        }),
{
    law_trimmed_blank(text);
}

/// The step sends a text to the program as it stands, where one is running; it stands in the
/// transcript as the user's, and the input line is emptied. Where none is running, only that is
/// told.
pub open spec fn sends_as_it_stands(step: Step, tab: TabView, text: Seq<char>) -> bool {
    &&& tab.sess.running ==> {
        &&& step.tab == (TabView { msgs: and_then(tab.msgs, Who::You, text), ..tab })
        &&& step.actions == seq![
            ActionView::ClearEntry,
            ActionView::Render,
            ActionView::Send(json_text(user_tree(text))),
        ]
    }
    &&& !tab.sess.running ==> only_tells(step, tab, "No running session. Choose a folder first."@)
}

/// A text that does not lead with a slash is a message.
pub proof fn law_submit_message(
    tab: TabView,
    before: Seq<char>,
    c: char,
    after: Seq<char>,
    mode: u32,
)
    requires
        blank(before),
        !is_space_char(c),
        c != '/',
    ensures
        ({
            let text = before + seq![c] + after;
            sends_as_it_stands(next(tab, Input::Submit { text, mode }), tab, text)
        }),
{
    let text = before + seq![c] + after;
    law_leads_with(before, c, after, '/');
    lemma_text_is_left(before, seq![c], after);
}

proof fn lemma_text_is_left(before: Seq<char>, word: Seq<char>, after: Seq<char>)
    requires
        blank(before),
        is_word(word),
        word.len() > 0,
    ensures
        ({
            let s = before + word + after;
            &&& trimmed(s).len() >= word.len()
            &&& trimmed(s).take(word.len() as int) == word
            &&& trimmed(s).len() > word.len() ==> after.len() > 0 && trimmed(s)[word.len() as int]
                == after[0]
        }),
{
    let s = before + word + after;
    let tail = lemma_split_end(after);
    let kept = after.take(tail);
    let rest = after.skip(tail);
    let core = word + kept;
    assert(after =~= kept + rest);
    assert(s =~= before + core + rest);
    if kept.len() > 0 {
        assert(core.last() == kept.last());
        assert(kept.last() == after[tail - 1]);
    } else {
        assert(core.last() == word.last());
    }
    assert(core[0] == word[0]);
    law_trimmed(before, core, rest);
    assert(core.take(word.len() as int) =~= word);
}

/// Where the white space at the end of a text begins.
proof fn lemma_split_end(s: Seq<char>) -> (at: int)
    ensures
        0 <= at <= s.len(),
        blank(s.skip(at)),
        at > 0 ==> !is_space_char(s[at - 1]),
    decreases s.len(),
{
    if s.len() == 0 {
        0
    } else if is_space_char(s.last()) {
        let shorter = s.drop_last();
        let at = lemma_split_end(shorter);
        assert forall|i: int| 0 <= i < s.skip(at).len() implies is_space_char(
            #[trigger] s.skip(at)[i],
        ) by {
            if at + i < shorter.len() {
                assert(shorter.skip(at)[i] == s.skip(at)[i]);
            }
        }
        at
    } else {
        assert(s.skip(s.len() as int).len() == 0);
        s.len() as int
    }
}

/// A text whose first word is no command's name is a message, also where it leads with a slash.
pub proof fn law_submit_unknown_word(
    tab: TabView,
    before: Seq<char>,
    word: Seq<char>,
    after: Seq<char>,
    mode: u32,
)
    requires
        blank(before),
        is_word(word),
        word.len() > 0,
        after.len() > 0 ==> is_space_char(after[0]),
        forall|i: int| 0 <= i < command_table().len() ==> (#[trigger] command_table()[i]).name
            != word,
    ensures
        ({
            let text = before + word + after;
            sends_as_it_stands(next(tab, Input::Submit { text, mode }), tab, text)
        }),
{
    let text = before + word + after;
    lemma_text_is_left(before, word, after);
    let line = trimmed(text);
    let rest = line.skip(word.len() as int);
    assert(line =~= line.take(word.len() as int) + rest);
    if rest.len() > 0 {
        assert(rest[0] == line[word.len() as int]);
        law_first_word(word, rest[0], rest.skip(1));
        assert(line =~= word + seq![rest[0]] + rest.skip(1));
    } else {
        law_first_word(word, ' ', rest);
        assert(line =~= word);
    }
    lemma_no_row(command_table(), word);
}

proof fn lemma_no_row(rows: Seq<CmdView>, word: Seq<char>)
    requires
        forall|i: int| 0 <= i < rows.len() ==> (#[trigger] rows[i]).name != word,
    ensures
        row_called(rows, word) is None,
    decreases rows.len(),
{
    if rows.len() > 0 {
        let rest = rows.drop_first();
        assert forall|i: int| 0 <= i < rest.len() implies (#[trigger] rest[i]).name != word by {
            assert(rest[i] == rows[i + 1]);
        }
        lemma_no_row(rest, word);
    }
}

/// A command is carried out with its argument, whatever white space stands before, between and
/// behind them; the argument is handed on as it stands. The input line is emptied.
pub proof fn law_submit_command(
    tab: TabView,
    before: Seq<char>,
    i: int,
    gap: Seq<char>,
    arg: Seq<char>,
    after: Seq<char>,
    mode: u32,
)
    requires
        blank(before),
        0 <= i < command_table().len(),
        blank(gap),
        gap.len() > 0,
        trim_text(arg),
        blank(after),
    ensures
        ({
            let row = command_table()[i];
            let text = before + (row.name + gap + arg) + after;
            let step = next(tab, Input::Submit { text, mode });
            let done = command_step(tab, row, arg, mode);
            step.tab == done.tab && step.actions == done.actions.push(ActionView::ClearEntry)
        }),
{
    lemma_names();
    law_every_command_is_found(i);
    let row = command_table()[i];
    let core = row.name + gap + arg;
    let text = before + core + after;
    assert(core[0] == row.name[0]);
    assert(core.last() == arg.last());
    law_trimmed(before, core, after);
    law_leads_with(before, '/', core.skip(1) + after, '/');
    assert(text =~= before + seq!['/'] + (core.skip(1) + after));
    law_first_word(row.name, gap[0], gap.skip(1) + arg);
    assert(core =~= row.name + seq![gap[0]] + (gap.skip(1) + arg));
    assert forall|k: int| 0 <= k < gap.skip(1).len() implies is_space_char(
        #[trigger] gap.skip(1)[k],
    ) by {
        assert(gap.skip(1)[k] == gap[k + 1]);
    }
    let none = Seq::<char>::empty();
    law_trimmed(gap.skip(1), arg, none);
    assert(gap.skip(1) + arg + none =~= gap.skip(1) + arg);
}

/// A command's name alone carries it out without an argument, whatever white space stands around it.
pub proof fn law_submit_bare_command(
    tab: TabView,
    before: Seq<char>,
    i: int,
    after: Seq<char>,
    mode: u32,
)
    requires
        blank(before),
        0 <= i < command_table().len(),
        blank(after),
    ensures
        ({
            let row = command_table()[i];
            let text = before + row.name + after;
            let step = next(tab, Input::Submit { text, mode });
            let done = command_step(tab, row, Seq::empty(), mode);
            step.tab == done.tab && step.actions == done.actions.push(ActionView::ClearEntry)
        }),
{
    lemma_names();
    law_every_command_is_found(i);
    let name = command_table()[i].name;
    let text = before + name + after;
    assert(!is_space_char(name[name.len() - 1]));
    law_trimmed(before, name, after);
    law_leads_with(before, '/', name.skip(1) + after, '/');
    assert(text =~= before + seq!['/'] + (name.skip(1) + after));
    law_first_word(name, ' ', after);
    assert(rest_of_words(name) =~= Seq::empty());
}

/// A piece of a reply goes behind what has streamed in. The transcript is to be shown a little
/// later, which is asked once.
pub proof fn law_piece_report(tab: TabView, text: Seq<char>, log: Seq<char>, mode: u32)
    ensures
        ({
            let ev = EvView::Delta(text);
            let step = next(tab, Input::Report { gen: tab.gen, ev, log, mode });
            &&& step.tab == (TabView { stream: tab.stream + text, render_pending: true, ..tab })
            &&& step.actions == if tab.render_pending {
                Seq::empty()
            } else {
                seq![ActionView::ScheduleRender]
            }
        }),
{
}

/// A tool at work is told in the transcript; thinking is told beside it.
pub proof fn law_work_reports(tab: TabView, label: Seq<char>, log: Seq<char>, mode: u32)
    ensures
        ({
            let tool = next(
                tab,
                Input::Report { gen: tab.gen, ev: EvView::Tool(label), log, mode },
            );
            let thinking = next(
                tab,
                Input::Report { gen: tab.gen, ev: EvView::Thinking, log, mode },
            );
            &&& tool.tab == (TabView { msgs: and_then(tab.msgs, Who::Tool, label), ..tab })
            &&& tool.actions == seq![ActionView::Status("🔧 working…"@), ActionView::Render]
            &&& thinking.tab == tab
            &&& thinking.actions == seq![ActionView::Status("💭 thinking…"@)]
        }),
{
}

/// The end of a turn: the reply comes into the transcript as it stands, in place of what streamed
/// in; the session and the tokens are those of the turn; flags that a command set are good from now
/// on. Where the turn was refused something, that is told and awaits approval, with its folders.
/// The user may write. Nothing else changes.
pub proof fn law_turn_report(tab: TabView, turn: TurnView, log: Seq<char>, mode: u32)
    ensures
        ({
            let ev = EvView::Turn(turn);
            let step = next(tab, Input::Report { gen: tab.gen, ev, log, mode });
            let sess = step.tab.sess;
            let replied = and_then(tab.msgs, Who::Assistant, turn.result);
            let refused = turn.denials.len() > 0;
            &&& step.tab.msgs == if refused {
                and_then(
                    replied,
                    Who::System,
                    tab.names.label + " needs permission for:\n  "@ + joined(
                        turn.denials,
                        "\n  "@,
                    )
                        + "\n>>> Click [Approve] to allow and continue. Typing does NOT grant it. <<<"@,
                )
            } else {
                replied
            }
            &&& sess.session_id == if turn.session_id is Some {
                turn.session_id
            } else {
                tab.sess.session_id
            }
            &&& sess.last_usage == Some(turn.usage)
            &&& sess.pending_approval == refused
            &&& sess.pending_dirs == if refused {
                turn.denied_dirs
            } else {
                tab.sess.pending_dirs
            }
            &&& !sess.cmd_pending
            &&& tab.sess.cmd_pending ==> sess.good_overrides == tab.sess.overrides
                && !sess.cmd_recovering
            &&& !tab.sess.cmd_pending ==> sess.good_overrides == tab.sess.good_overrides
                && sess.cmd_recovering == tab.sess.cmd_recovering
            &&& step.tab == (TabView {
                sess: SessionView {
                    session_id: sess.session_id,
                    last_usage: sess.last_usage,
                    pending_approval: sess.pending_approval,
                    pending_dirs: sess.pending_dirs,
                    good_overrides: sess.good_overrides,
                    cmd_pending: sess.cmd_pending,
                    cmd_recovering: sess.cmd_recovering,
                    ..tab.sess
                },
                msgs: step.tab.msgs,
                stream: Seq::empty(),
                ..tab
            })
            &&& step.actions == if refused {
                seq![
                    ActionView::Render,
                    ActionView::Render,
                    ActionView::Approve(true),
                    ActionView::Status(""@),
                    ActionView::Inputs(true),
                ]
            } else {
                seq![ActionView::Render, ActionView::Status(""@), ActionView::Inputs(true)]
            }
        }),
{
}

/// The end of a program that a command launched, before it came up: the command is undone, in every
/// tab that has a folder. The flags are those that were good, the session is the one that was kept,
/// what the program complained of is told as it stands, and one is launched again.
pub proof fn law_end_under_a_command(
    tab: TabView,
    why: Seq<char>,
    before: Seq<char>,
    error: Seq<char>,
    after: Seq<char>,
    mode: u32,
)
    requires
        tab.sess.cmd_pending,
        !tab.sess.cmd_recovering,
        tab.sess.workdir is Some,
        blank(before),
        trim_text(error),
        blank(after),
    ensures
        ({
            let told = next(
                tab,
                Input::Report {
                    gen: tab.gen,
                    ev: EvView::Ended(why),
                    log: before + error + after,
                    mode,
                },
            );
            let silent = next(
                tab,
                Input::Report { gen: tab.gen, ev: EvView::Ended(why), log: before, mode },
            );
            let first =
                "Command rejected by the CLI — reverting to the previous config and continuing:\n"@;
            &&& told.tab.gen == successor(tab.gen)
            &&& told.tab == (TabView {
                sess: SessionView {
                    session_id: tab.sess.kept_id,
                    overrides: tab.sess.good_overrides,
                    cmd_pending: false,
                    cmd_recovering: true,
                    running: false,
                    ..tab.sess
                },
                msgs: and_then(tab.msgs, Who::System, first + error),
                stream: Seq::empty(),
                gen: told.tab.gen,
                ..tab
            })
            &&& silent.tab == (TabView {
                msgs: and_then(
                    tab.msgs,
                    Who::System,
                    first + "the process exited immediately"@,
                ),
                ..told.tab
            })
            &&& told.actions == seq![ActionView::Render, launched_for(told.tab, mode, false)]
            &&& silent.actions == told.actions
        }),
{
    law_log_message(before, error, after);
    let told = next(
        tab,
        Input::Report {
            gen: tab.gen,
            ev: EvView::Ended(why),
            log: before + error + after,
            mode,
        },
    );
    assert(told.actions =~= seq![ActionView::Render, launched_for(told.tab, mode, false)]);
}

/// Any other end of a program is told, with why and with what the program complained of, and the
/// user may not write. What was streaming in is gone. Nothing else changes.
pub proof fn law_end_otherwise(
    tab: TabView,
    why: Seq<char>,
    before: Seq<char>,
    error: Seq<char>,
    after: Seq<char>,
    mode: u32,
)
    requires
        !tab.sess.cmd_pending || tab.sess.cmd_recovering,
        blank(before),
        trim_text(error),
        blank(after),
    ensures
        ({
            let told = next(
                tab,
                Input::Report {
                    gen: tab.gen,
                    ev: EvView::Ended(why),
                    log: before + error + after,
                    mode,
                },
            );
            let silent = next(
                tab,
                Input::Report { gen: tab.gen, ev: EvView::Ended(why), log: before, mode },
            );
            let first = "(session process ended: "@ + why + (if tab.sess.cmd_recovering {
                " (recovery also failed)"@
            } else {
                ""@
            }) + ")"@;
            &&& told.tab == (TabView {
                msgs: and_then(tab.msgs, Who::System, first + "\n"@ + error),
                stream: Seq::empty(),
                ..tab
            })
            &&& silent.tab == (TabView {
                msgs: and_then(tab.msgs, Who::System, first),
                stream: Seq::empty(),
                ..tab
            })
            &&& told.actions == seq![
                ActionView::Render,
                ActionView::Status(""@),
                ActionView::Inputs(false),
            ]
            &&& silent.actions == told.actions
        }),
{
    law_log_message(before, error, after);
}

/// While a message is under way the user may not write; one that could not be written is told.
pub proof fn law_sent(tab: TabView)
    ensures
        next(tab, Input::Sent { ok: true }).tab == tab,
        next(tab, Input::Sent { ok: true }).actions == seq![
            ActionView::Status("⏳ working…"@),
            ActionView::Inputs(false),
            ActionView::Approve(false),
        ],
        only_tells(
            next(tab, Input::Sent { ok: false }),
            tab,
            "Error: session process not running. Re-choose the folder."@,
        ),
{
}

/// A program that was launched can be written to; one that could not be launched is told, with what
/// went wrong.
pub proof fn law_launched(tab: TabView, error: Seq<char>)
    ensures
        next(tab, Input::Launched { error: None }).tab == (TabView {
            sess: SessionView { running: true, ..tab.sess },
            ..tab
        }),
        next(tab, Input::Launched { error: None }).actions.len() == 0,
        only_tells(
            next(tab, Input::Launched { error: Some(error) }),
            tab,
            "Failed to launch "@ + tab.names.program + ": "@ + error,
        ),
{
}

/// When the time has come, the transcript is shown, and may be asked for again.
pub proof fn law_render_due(tab: TabView)
    ensures
        next(tab, Input::RenderDue).tab == (TabView { render_pending: false, ..tab }),
        next(tab, Input::RenderDue).actions == seq![ActionView::Render],
{
}

/// The choice of a folder: the session is a new one in that folder, of which nothing else is known,
/// and the transcript is one message. The earlier program is made an end of, and one is launched in
/// the folder.
pub proof fn law_folder_chosen(tab: TabView, folder: Seq<char>, mode: u32)
    ensures
        ({
            let step = next(tab, Input::Choose { folder, mode });
            &&& step.tab.gen == successor(tab.gen)
            &&& step.tab == (TabView {
                sess: SessionView {
                    workdir: Some(folder),
                    session_id: None,
                    pending_approval: false,
                    pending_dirs: Seq::empty(),
                    allowed_dirs: Seq::empty(),
                    running: false,
                    overrides: Seq::empty(),
                    good_overrides: Seq::empty(),
                    cmd_pending: false,
                    cmd_recovering: false,
                    kept_id: None,
                    model: None,
                    last_usage: None,
                },
                msgs: and_then(
                    Seq::empty(),
                    Who::System,
                    "Folder set. Persistent session started; streaming on."@,
                ),
                stream: Seq::empty(),
                gen: step.tab.gen,
                ..tab
            })
            &&& step.actions == seq![
                ActionView::Kill,
                ActionView::Folder(folder),
                ActionView::Inputs(true),
                ActionView::Approve(false),
                ActionView::Render,
                launched_for(step.tab, mode, false),
            ]
        }),
{
    let step = next(tab, Input::Choose { folder, mode });
    assert(step.actions =~= seq![
        ActionView::Kill,
        ActionView::Folder(folder),
        ActionView::Inputs(true),
        ActionView::Approve(false),
        ActionView::Render,
        launched_for(step.tab, mode, false),
    ]);
}

/// Another row of the mode list: it is told, and a program is launched with it into the same
/// session. Without a folder nothing is done.
pub proof fn law_mode_chosen(tab: TabView, mode: u32)
    ensures
        ({
            let step = next(tab, Input::Mode { mode });
            &&& tab.sess.workdir is None ==> step.tab == tab && step.actions.len() == 0
            &&& tab.sess.workdir is Some ==> {
                &&& step.tab.gen == successor(tab.gen)
                &&& step.tab == (TabView {
                    sess: SessionView { running: false, ..tab.sess },
                    msgs: and_then(
                        tab.msgs,
                        Who::System,
                        "Mode changed — restarting session (context kept)."@,
                    ),
                    gen: step.tab.gen,
                    ..tab
                })
                &&& step.actions == seq![ActionView::Render, launched_for(step.tab, mode, false)]
            }
        }),
{
    let step = next(tab, Input::Mode { mode });
    if tab.sess.workdir is Some {
        assert(step.actions =~= seq![ActionView::Render, launched_for(step.tab, mode, false)]);
    }
}

/// An approval that was asked for: the folders that await it are open, behind those that were; it is
/// told as the user's; a program is launched that accepts edits, and it is told to go on. Nothing
/// else changes.
pub proof fn law_approved(tab: TabView, mode: u32)
    requires
        tab.sess.pending_approval,
        tab.sess.workdir is Some,
    ensures
        ({
            let step = next(tab, Input::Approve { mode });
            &&& step.tab.gen == successor(tab.gen)
            &&& step.tab == (TabView {
                sess: SessionView {
                    pending_approval: false,
                    pending_dirs: Seq::empty(),
                    allowed_dirs: step.tab.sess.allowed_dirs,
                    running: false,
                    ..tab.sess
                },
                msgs: and_then(
                    tab.msgs,
                    Who::You,
                    "[Approved — restarting session with access, continuing]"@,
                ),
                gen: step.tab.gen,
                ..tab
            })
            &&& step.tab.sess.allowed_dirs == granted(tab.sess.allowed_dirs, tab.sess.pending_dirs)
            &&& tab.sess.pending_dirs.no_duplicates() && (forall|dir: Seq<char>|
                tab.sess.pending_dirs.contains(dir) ==> !tab.sess.allowed_dirs.contains(dir))
                ==> step.tab.sess.allowed_dirs == tab.sess.allowed_dirs + tab.sess.pending_dirs
            &&& step.actions == seq![
                ActionView::Render,
                launched_for(step.tab, mode, true),
                ActionView::Send(
                    json_text(user_tree("Approved. Proceed with the action you described."@)),
                ),
            ]
        }),
{
    let step = next(tab, Input::Approve { mode });
    assert(step.actions =~= seq![
        ActionView::Render,
        launched_for(step.tab, mode, true),
        ActionView::Send(
            json_text(user_tree("Approved. Proceed with the action you described."@)),
        ),
    ]);
    if tab.sess.pending_dirs.no_duplicates() && (forall|dir: Seq<char>|
        tab.sess.pending_dirs.contains(dir) ==> !tab.sess.allowed_dirs.contains(dir)) {
        lemma_granted_new(tab.sess.allowed_dirs, tab.sess.pending_dirs);
    }
}

/// Folders are opened up one behind the other, each behind those that are open, unless it is.
pub proof fn law_granted_in_order(
    allowed: Seq<Seq<char>>,
    dirs: Seq<Seq<char>>,
    dir: Seq<char>,
)
    ensures
        granted(allowed, Seq::empty()) == allowed,
        granted(allowed, dirs).contains(dir) ==> granted(allowed, dirs.push(dir)) == granted(
            allowed,
            dirs,
        ),
        !granted(allowed, dirs).contains(dir) ==> granted(allowed, dirs.push(dir)) == granted(
            allowed,
            dirs,
        ).push(dir),
{
    assert(dirs.push(dir).drop_last() =~= dirs);
}

proof fn lemma_granted_new(allowed: Seq<Seq<char>>, dirs: Seq<Seq<char>>)
    requires
        dirs.no_duplicates(),
        forall|dir: Seq<char>| dirs.contains(dir) ==> !allowed.contains(dir),
    ensures
        granted(allowed, dirs) == allowed + dirs,
    decreases dirs.len(),
{
    if dirs.len() == 0 {
        assert(allowed + dirs =~= allowed);
    } else {
        let earlier = dirs.drop_last();
        assert forall|dir: Seq<char>| earlier.contains(dir) implies !allowed.contains(dir) by {
            let k = choose|k: int| 0 <= k < earlier.len() && earlier[k] == dir;
            assert(dirs[k] == dir);
            assert(dirs.contains(dir));
        }
        lemma_granted_new(allowed, earlier);
        let last = dirs.last();
        assert(dirs.contains(last));
        assert(!(allowed + earlier).contains(last)) by {
            if (allowed + earlier).contains(last) {
                let k = choose|k: int|
                    0 <= k < (allowed + earlier).len() && (allowed + earlier)[k] == last;
                if k < allowed.len() {
                    assert(allowed[k] == last);
                    assert(allowed.contains(last));
                } else {
                    assert(dirs[k - allowed.len()] == last);
                }
            }
        }
        assert((allowed + earlier).push(last) =~= allowed + dirs);
    }
}

/// An image is asked for where there is a folder and a program to tell; else what is missing is
/// told.
pub proof fn law_image_asked(tab: TabView)
    ensures
        ({
            let step = next(tab, Input::Image);
            &&& tab.sess.workdir is None ==> only_tells(step, tab, "Choose a folder first."@)
            &&& tab.sess.workdir is Some && !tab.sess.running ==> only_tells(
                step,
                tab,
                "No running session."@,
            )
            &&& tab.sess.workdir is Some && tab.sess.running ==> step.tab == tab && step.actions
                == seq![ActionView::ReadClipboard]
        }),
{
}

/// An image that was pasted is told as the user's, by its file and with what the user wrote, and the
/// program is pointed at its path, with the same words.
pub proof fn law_image_pasted(
    tab: TabView,
    file: Seq<char>,
    path: Seq<char>,
    extra: Seq<char>,
)
    ensures
        ({
            let step = next(tab, Input::Pasted { file, path, extra });
            &&& step.tab == (TabView {
                msgs: and_then(
                    tab.msgs,
                    Who::You,
                    "[pasted image: "@ + file + "] "@ + extra,
                ),
                ..tab
            })
            &&& step.actions == seq![
                ActionView::ClearEntry,
                ActionView::Render,
                ActionView::Send(
                    json_text(
                        user_tree(
                            "我粘贴了一张图片，请先用 Read 工具查看这个文件，再回答：\n"@ + path
                                + "\n"@ + extra,
                        ),
                    ),
                ),
            ]
        }),
{
}

/// Where no image was pasted, why is told.
pub proof fn law_image_not_pasted(tab: TabView, why: PasteError)
    ensures
        only_tells(
            next(tab, Input::NotPasted { why }),
            tab,
            match why {
                PasteError::Empty => "Clipboard has no image."@,
                PasteError::Unreadable(error) => "Clipboard read failed: "@ + error@,
                PasteError::Unsaved(error) => "Failed to save pasted image: "@ + error@,
            },
        ),
{
}

} // verus!
