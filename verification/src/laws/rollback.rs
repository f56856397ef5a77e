//! Commands that the program rejects, and commands that it accepts.

use crate::commands::{CmdView, RouteView};
use crate::errlog::log_message;
use crate::laws::flags::law_set_flag;
use crate::laws::machine::{next, run, start, Input};
use crate::names::{MessageView, NamesView, Who};
use crate::session::{flag_value, launch_args, SessionView};
use crate::tab::{
    command_step, end_text, event_step, launched_step, next_gen, rollback_step, ActionView, TabView,
};
use crate::text::text_or;
use crate::wire::EvView;
use vstd::prelude::*;

verus! {

/// A command that launches the program: one that clears, or a flag's with an argument.
pub open spec fn relaunches(command: CmdView, arg: Seq<char>) -> bool {
    match command.route {
        RouteView::RespawnFlag(_) => arg.len() > 0,
        RouteView::Clear => true,
        RouteView::Local(_) => false,
    }
}

/// The tab once a command has been carried out and the program has been launched.
pub open spec fn relaunched(tab: TabView, command: CmdView, arg: Seq<char>, mode: u32) -> TabView {
    launched_step(command_step(tab, command, arg, mode).tab, None).tab
}

/// A rejected command is undone. Where the program that a command launched ends before it has come
/// up, the flags are again what they were when a program last came up, and the session is again the
/// one that the command found, also where it was to be cleared. The folder and the folders that are
/// open stay. The program's own error is told, and a program is launched into that session. The user
/// may go on writing.
pub proof fn law_rejected_command_is_undone(
    tab: TabView,
    command: CmdView,
    arg: Seq<char>,
    mode: u32,
    why: Seq<char>,
    log: Seq<char>,
    later: u32,
)
    requires
        relaunches(command, arg),
        tab.sess.workdir is Some,
    ensures
        ({
            let tried = relaunched(tab, command, arg, mode);
            let step = event_step(tried, tried.gen, EvView::Ended(why), log, later);
            &&& step.tab.sess == (SessionView {
                session_id: tab.sess.session_id,
                overrides: tab.sess.good_overrides,
                cmd_pending: false,
                cmd_recovering: true,
                running: false,
                ..tried.sess
            })
            &&& step.tab.sess.workdir == tab.sess.workdir
            &&& step.tab.sess.allowed_dirs == tab.sess.allowed_dirs
            &&& step.tab.sess.session_id == tab.sess.session_id
            &&& !(command.route is Clear) ==> tab.msgs.is_prefix_of(step.tab.msgs)
            &&& step.tab.msgs == tried.msgs.push(
                MessageView {
                    who: Who::System,
                    text:
                        "Command rejected by the CLI — reverting to the previous config and continuing:\n"@
                        + text_or(log_message(log), "the process exited immediately"@),
                },
            )
            &&& step.actions == seq![
                ActionView::Render,
                ActionView::Spawn {
                    gen: next_gen(tried.gen),
                    args: launch_args(step.tab.sess, later, false),
                },
            ]
        }),
{
    let tried = relaunched(tab, command, arg, mode);
    let step = event_step(tried, tried.gen, EvView::Ended(why), log, later);
    assert(step.actions =~= seq![
        ActionView::Render,
        ActionView::Spawn {
            gen: next_gen(tried.gen),
            args: launch_args(step.tab.sess, later, false),
        },
    ]);
}

/// A rejected command is undone once. Where the program launched for that ends too, none is
/// launched, and the user is told so.
pub proof fn law_undone_once(
    tab: TabView,
    command: CmdView,
    arg: Seq<char>,
    mode: u32,
    why: Seq<char>,
    log: Seq<char>,
    later: u32,
    again: Seq<char>,
    second_log: Seq<char>,
    latest: u32,
)
    requires
        relaunches(command, arg),
        tab.sess.workdir is Some,
    ensures
        ({
            let tried = relaunched(tab, command, arg, mode);
            let back = event_step(tried, tried.gen, EvView::Ended(why), log, later).tab;
            let step = event_step(back, back.gen, EvView::Ended(again), second_log, latest);
            &&& step.tab.sess == back.sess
            &&& step.tab.msgs == back.msgs.push(
                MessageView { who: Who::System, text: end_text(back.sess, again, second_log) },
            )
            &&& step.actions == seq![
                ActionView::Render,
                ActionView::Status(""@),
                ActionView::Inputs(false),
            ]
        }),
{
}

/// An accepted command stays. Once the program has come up, its flags count as good, a flag that the
/// command set with the value that it was set to: a later end of the program takes nothing back and
/// launches nothing.
pub proof fn law_accepted_command_stays(
    tab: TabView,
    command: CmdView,
    arg: Seq<char>,
    mode: u32,
    model: Option<Seq<char>>,
    session_id: Option<Seq<char>>,
    why: Seq<char>,
    log: Seq<char>,
    later: u32,
)
    requires
        relaunches(command, arg),
        tab.sess.workdir is Some,
    ensures
        ({
            let tried = relaunched(tab, command, arg, mode);
            let init = EvView::Init { model, session_id };
            let up = event_step(tried, tried.gen, init, log, later).tab;
            let step = event_step(up, up.gen, EvView::Ended(why), log, later);
            &&& command.route matches RouteView::RespawnFlag(flag) ==> flag_value(
                up.sess.overrides,
                flag,
            ) == Some(arg)
            &&& command.route is Clear ==> up.sess.overrides == tab.sess.overrides
            &&& up.sess.good_overrides == up.sess.overrides
            &&& !up.sess.cmd_pending
            &&& step.tab.sess == up.sess
            &&& forall|i: int|
                0 <= i < step.actions.len() ==> !(#[trigger] step.actions[i] is Spawn)
        }),
{
    if let RouteView::RespawnFlag(flag) = command.route {
        law_set_flag(tab.sess.overrides, flag, arg, flag);
    }
}

/// No command is under way, or none was undone since.
pub open spec fn one_at_a_time(session: SessionView) -> bool {
    !(session.cmd_pending && session.cmd_recovering)
}

proof fn lemma_one_at_a_time(names: NamesView, inputs: Seq<Input>)
    ensures
        one_at_a_time(run(start(names), inputs).sess),
    decreases inputs.len(),
{
    if inputs.len() > 0 {
        lemma_one_at_a_time(names, inputs.drop_last());
    }
}

/// In every tab, the end of a program that a command launched and that has not come up undoes the
/// command: that an earlier one was undone does not stand in the way.
pub proof fn law_every_rejection_is_undone(
    names: NamesView,
    inputs: Seq<Input>,
    why: Seq<char>,
    log: Seq<char>,
    mode: u32,
)
    requires
        run(start(names), inputs).sess.cmd_pending,
    ensures
        ({
            let tab = run(start(names), inputs);
            event_step(tab, tab.gen, EvView::Ended(why), log, mode) == rollback_step(tab, log, mode)
        }),
{
    lemma_one_at_a_time(names, inputs);
}

/// Unless a command is under way, the flags are those that a program last came up with.
pub open spec fn settled(session: SessionView) -> bool {
    !session.cmd_pending ==> session.overrides == session.good_overrides
}

/// Whatever happens, the flags stay settled.
pub proof fn law_settled(tab: TabView, input: Input)
    requires
        settled(tab.sess),
    ensures
        settled(next(tab, input).tab.sess),
{
}

/// In every tab, however it came about, the flags are settled.
pub proof fn law_always_settled(names: NamesView, inputs: Seq<Input>)
    ensures
        settled(run(start(names), inputs).sess),
    decreases inputs.len(),
{
    if inputs.len() > 0 {
        law_always_settled(names, inputs.drop_last());
        law_settled(run(start(names), inputs.drop_last()), inputs.last());
    }
}

} // verus!
