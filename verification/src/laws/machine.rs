//! The tab as a machine: what every step keeps, and what steps do to each other.

use crate::commands::{command_called, CmdView, RouteView};
use crate::laws::flags::{law_set_flag, lemma_without_flag, unique_flags};
use crate::names::{NamesView, Who};
use crate::session::{
    common_args, dir_args, flag_args, fresh, launch_args, option_args, permission_mode,
    without_flag, SessionView, MODE_FLAG,
};
use crate::tab::{
    approve_step, choose_step, clear_step, command_step, event_step, go_ahead, granted, idle,
    image_step, launch, launched_step, mode_step, next_gen, notice, paste_error_text, pasted_step,
    render_due_step, send, sent_step, submit_step, ActionView, PasteError, Step, TabView,
};
use crate::text::{first_word, leads_with, rest_of_words, trimmed};
use crate::wire::EvView;
use vstd::prelude::*;

verus! {

/// Something that happens to a tab.
pub enum Input {
    Submit { text: Seq<char>, mode: u32 },
    Report { gen: u64, ev: EvView, log: Seq<char>, mode: u32 },
    Sent { ok: bool },
    Launched { error: Option<Seq<char>> },
    RenderDue,
    Choose { folder: Seq<char>, mode: u32 },
    Mode { mode: u32 },
    Approve { mode: u32 },
    Image,
    Pasted { file: Seq<char>, path: Seq<char>, extra: Seq<char> },
    NotPasted { why: PasteError },
}

/// What it does to the tab.
pub open spec fn next(tab: TabView, input: Input) -> Step {
    match input {
        Input::Submit { text, mode } => submit_step(tab, text, mode),
        Input::Report { gen, ev, log, mode } => event_step(tab, gen, ev, log, mode),
        Input::Sent { ok } => sent_step(tab, ok),
        Input::Launched { error } => launched_step(tab, error),
        Input::RenderDue => render_due_step(tab),
        Input::Choose { folder, mode } => choose_step(tab, folder, mode),
        Input::Mode { mode } => mode_step(tab, mode),
        Input::Approve { mode } => approve_step(tab, mode),
        Input::Image => image_step(tab),
        Input::Pasted { file, path, extra } => pasted_step(tab, file, path, extra),
        Input::NotPasted { why } => notice(tab, paste_error_text(why)),
    }
}

/// A tab as it is made.
pub open spec fn start(names: NamesView) -> TabView {
    TabView {
        names,
        sess: fresh(None),
        msgs: Seq::empty(),
        stream: Seq::empty(),
        render_pending: false,
        gen: 0,
    }
}

/// A tab that all this has happened to, one thing after the other.
pub open spec fn run(tab: TabView, inputs: Seq<Input>) -> TabView
    decreases inputs.len(),
{
    if inputs.len() == 0 {
        tab
    } else {
        next(run(tab, inputs.drop_last()), inputs.last()).tab
    }
}

/// No flag is set twice, and no folder is opened up twice.
pub open spec fn tidy(session: SessionView) -> bool {
    &&& unique_flags(session.overrides)
    &&& unique_flags(session.good_overrides)
    &&& session.allowed_dirs.no_duplicates()
}

proof fn lemma_granted(allowed: Seq<Seq<char>>, dirs: Seq<Seq<char>>)
    ensures
        allowed.no_duplicates() ==> granted(allowed, dirs).no_duplicates(),
        allowed.is_prefix_of(granted(allowed, dirs)),
        forall|dir: Seq<char>|
            granted(allowed, dirs).contains(dir) <==> allowed.contains(dir) || dirs.contains(dir),
    decreases dirs.len(),
{
    let all = granted(allowed, dirs);
    if dirs.len() > 0 {
        let before = granted(allowed, dirs.drop_last());
        lemma_granted(allowed, dirs.drop_last());
        assert forall|dir: Seq<char>| all.contains(dir) <==> allowed.contains(dir)
            || dirs.contains(dir) by {
            let earlier = dirs.drop_last();
            assert(before.contains(dir) <==> allowed.contains(dir) || earlier.contains(dir));
            if earlier.contains(dir) {
                let k = choose|k: int| 0 <= k < earlier.len() && earlier[k] == dir;
                assert(dirs[k] == dir);
            }
            if all.contains(dir) {
                let i = choose|i: int| 0 <= i < all.len() && all[i] == dir;
                if i < before.len() {
                    assert(before[i] == dir);
                } else {
                    assert(dirs[dirs.len() - 1] == dir);
                }
            }
            if before.contains(dir) {
                let i = choose|i: int| 0 <= i < before.len() && before[i] == dir;
                assert(all[i] == dir);
            }
            if dirs.contains(dir) && !before.contains(dir) {
                let k = choose|k: int| 0 <= k < dirs.len() && dirs[k] == dir;
                if k < dirs.len() - 1 {
                    assert(earlier[k] == dir);
                } else {
                    assert(all == before.push(dir));
                    assert(all[before.len() as int] == dir);
                }
            }
        }
    }
}

/// Whatever happens, no flag comes to be set twice and no folder to be opened up twice.
pub proof fn law_tidy(tab: TabView, input: Input)
    requires
        tidy(tab.sess),
    ensures
        tidy(next(tab, input).tab.sess),
{
    match input {
        Input::Submit { text, mode } => {
            let line = trimmed(text);
            if let Some(command) = command_called(first_word(line)) {
                if let RouteView::RespawnFlag(flag) = command.route {
                    law_set_flag(tab.sess.overrides, flag, rest_of_words(line), flag);
                }
            }
        },
        Input::Approve { mode } => {
            lemma_granted(tab.sess.allowed_dirs, tab.sess.pending_dirs);
        },
        _ => {},
    }
}

/// In no tab, however it came about, is a flag set twice or a folder opened up twice.
pub proof fn law_always_tidy(names: NamesView, inputs: Seq<Input>)
    ensures
        tidy(run(start(names), inputs).sess),
    decreases inputs.len(),
{
    if inputs.len() > 0 {
        law_always_tidy(names, inputs.drop_last());
        law_tidy(run(start(names), inputs.drop_last()), inputs.last());
    }
}

/// The row of the mode list at the time, where it matters.
pub open spec fn mode_of(input: Input) -> u32 {
    match input {
        Input::Submit { text, mode } => mode,
        Input::Report { gen, ev, log, mode } => mode,
        Input::Choose { folder, mode } => mode,
        Input::Mode { mode } => mode,
        Input::Approve { mode } => mode,
        _ => 0,
    }
}

/// A launch is always into a folder, begins the generation that the tab then has, and is given what
/// the tab then knows of the session. Only an approval has it accept edits. Nothing launches twice.
pub proof fn law_launches(tab: TabView, input: Input, i: int)
    requires
        0 <= i < next(tab, input).actions.len(),
        next(tab, input).actions[i] is Spawn,
    ensures
        next(tab, input).tab.sess.workdir is Some,
        next(tab, input).tab.gen == next_gen(tab.gen),
        next(tab, input).actions[i] == (ActionView::Spawn {
            gen: next(tab, input).tab.gen,
            args: launch_args(next(tab, input).tab.sess, mode_of(input), input is Approve),
        }),
        forall|j: int|
            0 <= j < next(tab, input).actions.len() && j != i ==> !(#[trigger] next(
                tab,
                input,
            ).actions[j] is Spawn),
{
}

/// A tab without a launch keeps its generation.
pub proof fn law_generations(tab: TabView, input: Input)
    requires
        forall|i: int|
            0 <= i < next(tab, input).actions.len() ==> !(#[trigger] next(
                tab,
                input,
            ).actions[i] is Spawn),
    ensures
        next(tab, input).tab.gen == tab.gen,
{
    let step = next(tab, input);
    if step.tab.gen != tab.gen {
        let last = step.actions.len() - 1;
        assert(step.actions[last] is Spawn || step.actions[last - 1] is Spawn);
    }
}

/// Once a program has been launched, what the one before it still reports does nothing.
pub proof fn law_launch_supersedes(
    tab: TabView,
    mode: u32,
    accept_edits: bool,
    ev: EvView,
    log: Seq<char>,
    later: u32,
)
    requires
        tab.sess.workdir is Some,
    ensures
        ({
            let launched = launch(tab, mode, accept_edits).tab;
            event_step(launched, tab.gen, ev, log, later) == idle(launched)
        }),
{
}

/// Every message is shown: where the transcript changes, it is to be shown at once, also where it
/// is to be shown a little later anyway.
pub proof fn law_messages_are_shown(tab: TabView, input: Input)
    requires
        next(tab, input).tab.msgs != tab.msgs,
    ensures
        next(tab, input).actions.contains(ActionView::Render),
{
    let actions = next(tab, input).actions;
    assert(actions[0] == ActionView::Render || actions[1] == ActionView::Render || actions[4]
        == ActionView::Render);
}

/// How many programs are launched while all this happens.
pub open spec fn launch_count(tab: TabView, inputs: Seq<Input>) -> nat
    decreases inputs.len(),
{
    if inputs.len() == 0 {
        0
    } else {
        let earlier = inputs.drop_last();
        let step = next(run(tab, earlier), inputs.last());
        launch_count(tab, earlier) + if exists|i: int|
            0 <= i < step.actions.len() && #[trigger] step.actions[i] is Spawn {
            1nat
        } else {
            0nat
        }
    }
}

proof fn lemma_generation(tab: TabView, inputs: Seq<Input>)
    requires
        launch_count(tab, inputs) <= u64::MAX,
    ensures
        run(tab, inputs).gen == if tab.gen + launch_count(tab, inputs) <= u64::MAX {
            tab.gen + launch_count(tab, inputs)
        } else {
            tab.gen + launch_count(tab, inputs) - u64::MAX - 1
        },
    decreases inputs.len(),
{
    if inputs.len() > 0 {
        let earlier = inputs.drop_last();
        lemma_generation(tab, earlier);
        let before = run(tab, earlier);
        let step = next(before, inputs.last());
        if exists|i: int| 0 <= i < step.actions.len() && #[trigger] step.actions[i] is Spawn {
            let i = choose|i: int|
                0 <= i < step.actions.len() && #[trigger] step.actions[i] is Spawn;
            law_launches(before, inputs.last(), i);
        } else {
            law_generations(before, inputs.last());
        }
    }
}

/// Once superseded, a program stays so: whatever happens after a later launch, what it reports does
/// nothing. (Generations come round again after as many launches as there are of them.)
pub proof fn law_superseded_stays(
    tab: TabView,
    inputs: Seq<Input>,
    ev: EvView,
    log: Seq<char>,
    mode: u32,
)
    requires
        0 < launch_count(tab, inputs) <= u64::MAX,
    ensures
        event_step(run(tab, inputs), tab.gen, ev, log, mode) == idle(run(tab, inputs)),
{
    lemma_generation(tab, inputs);
}

/// Only an approval opens up a folder. Typing does not, and nothing that the program reports does.
pub proof fn law_only_approval_opens(tab: TabView, input: Input)
    requires
        !(input is Approve),
        !(input is Choose),
    ensures
        next(tab, input).tab.sess.allowed_dirs == tab.sess.allowed_dirs,
{
}

/// An approval opens up every folder that was asked for and no other, leaves those open that were,
/// and answers the request: a second one does nothing.
pub proof fn law_approval(tab: TabView, mode: u32, again: u32)
    requires
        tab.sess.pending_approval,
    ensures
        ({
            let step = approve_step(tab, mode);
            let allowed = step.tab.sess.allowed_dirs;
            &&& forall|dir: Seq<char>|
                allowed.contains(dir) <==> tab.sess.allowed_dirs.contains(dir)
                    || tab.sess.pending_dirs.contains(dir)
            &&& tab.sess.allowed_dirs.is_prefix_of(allowed)
            &&& step.actions.last() == send(go_ahead())
            &&& approve_step(step.tab, again) == idle(step.tab)
        }),
{
    lemma_granted(tab.sess.allowed_dirs, tab.sess.pending_dirs);
}

/// Without a request, an approval does nothing.
pub proof fn law_approval_unasked(tab: TabView, mode: u32)
    requires
        !tab.sess.pending_approval,
    ensures
        approve_step(tab, mode) == idle(tab),
{
}

proof fn lemma_dir_args(dirs: Seq<Seq<char>>, i: int)
    requires
        0 <= i < dirs.len(),
    ensures
        dir_args(dirs).len() == 2 * dirs.len(),
        dir_args(dirs)[2 * i] == "--add-dir"@,
        dir_args(dirs)[2 * i + 1] == dirs[i],
    decreases dirs.len(),
{
    if dirs.len() == 1 {
        assert(dir_args(dirs.drop_last()).len() == 0);
    } else if i < dirs.len() - 1 {
        lemma_dir_args(dirs.drop_last(), i);
    } else {
        lemma_dir_args(dirs.drop_last(), 0);
    }
}

/// Every folder that is open is handed to the program.
pub proof fn law_open_dirs_are_passed(
    session: SessionView,
    mode: u32,
    accept_edits: bool,
    i: int,
)
    requires
        0 <= i < session.allowed_dirs.len(),
    ensures
        exists|at: int|
            {
                &&& 0 <= at < launch_args(session, mode, accept_edits).len() - 1
                &&& #[trigger] launch_args(session, mode, accept_edits)[at] == "--add-dir"@
                &&& launch_args(session, mode, accept_edits)[at + 1] == session.allowed_dirs[i]
            },
{
    lemma_dir_args(session.allowed_dirs, i);
    let first = common_args() + option_args("--resume"@, session.session_id) + option_args(
        MODE_FLAG@,
        permission_mode(session, mode, accept_edits),
    );
    let at = first.len() + 2 * i;
    let args = launch_args(session, mode, accept_edits);
    assert(args[at] == dir_args(session.allowed_dirs)[2 * i]);
    assert(args[at + 1] == dir_args(session.allowed_dirs)[2 * i + 1]);
}

/// A session that has an id is resumed; one that has none starts afresh.
pub proof fn law_resumes(session: SessionView, mode: u32, accept_edits: bool)
    ensures
        ({
            let args = launch_args(session, mode, accept_edits);
            let rest = option_args(MODE_FLAG@, permission_mode(session, mode, accept_edits))
                + dir_args(session.allowed_dirs) + flag_args(
                without_flag(session.overrides, MODE_FLAG@),
            );
            match session.session_id {
                Some(id) => args == common_args() + seq!["--resume"@, id] + rest,
                None => args == common_args() + rest,
            }
        }),
{
    let args = launch_args(session, mode, accept_edits);
    let rest = option_args(MODE_FLAG@, permission_mode(session, mode, accept_edits)) + dir_args(
        session.allowed_dirs,
    ) + flag_args(without_flag(session.overrides, MODE_FLAG@));
    match session.session_id {
        Some(id) => {
            assert(args =~= common_args() + seq!["--resume"@, id] + rest);
        },
        None => {
            assert(args =~= common_args() + rest);
        },
    }
}

/// What is written at the input line is the command that clears.
pub open spec fn clears(input: Input) -> bool {
    match input {
        Input::Submit { text, mode } => {
            &&& leads_with(text, '/')
            &&& command_called(first_word(trimmed(text))) matches Some(command)
            &&& command.route is Clear
        },
        _ => false,
    }
}

/// While a command is under way, the id that would be restored is the session's, unless the session
/// has none.
pub open spec fn id_is_kept(session: SessionView) -> bool {
    session.cmd_pending && session.session_id is Some ==> session.kept_id == session.session_id
}

proof fn lemma_id_is_kept(names: NamesView, inputs: Seq<Input>)
    ensures
        id_is_kept(run(start(names), inputs).sess),
    decreases inputs.len(),
{
    if inputs.len() > 0 {
        lemma_id_is_kept(names, inputs.drop_last());
    }
}

/// The context is kept: but for a clearing and the choice of a folder, no session ever loses its
/// id, and only the program gives it another.
pub proof fn law_context_kept(names: NamesView, inputs: Seq<Input>, input: Input)
    requires
        !(input is Choose),
        !clears(input),
    ensures
        ({
            let tab = run(start(names), inputs);
            let after = next(tab, input).tab;
            &&& tab.sess.session_id is Some ==> after.sess.session_id is Some
            &&& !(input is Report) ==> after.sess.session_id == tab.sess.session_id
        }),
{
    lemma_id_is_kept(names, inputs);
}

/// A clearing drops the context and the transcript, and keeps the folder, what was opened up and
/// what was set.
pub proof fn law_clearing(tab: TabView, mode: u32)
    requires
        tab.sess.workdir is Some,
    ensures
        ({
            let step = clear_step(tab, mode);
            &&& step.tab.sess.session_id is None
            &&& !step.tab.sess.pending_approval
            &&& step.tab.msgs.len() == 1
            &&& step.tab.msgs[0].who == Who::System
            &&& step.tab.stream.len() == 0
            &&& step.tab.sess.workdir == tab.sess.workdir
            &&& step.tab.sess.allowed_dirs == tab.sess.allowed_dirs
            &&& step.tab.sess.overrides == tab.sess.overrides
            &&& step.actions.last() == (ActionView::Spawn {
                gen: next_gen(tab.gen),
                args: launch_args(
                    SessionView { session_id: None, ..tab.sess },
                    mode,
                    false,
                ),
            })
        }),
{
}

proof fn lemma_flag_args_push(
    flags: Seq<(Seq<char>, Seq<char>)>,
    flag: Seq<char>,
    value: Seq<char>,
)
    ensures
        flag_args(flags.push((flag, value))) == flag_args(flags) + seq![flag, value],
{
    assert(flags.push((flag, value)).drop_last() =~= flags);
}

/// A flag's command hands its argument to the program as it stands: as the permission mode, or
/// behind its flag at the end of the arguments. The session is resumed.
pub proof fn law_argument_passed(
    tab: TabView,
    command: CmdView,
    flag: Seq<char>,
    arg: Seq<char>,
    mode: u32,
)
    requires
        command.route == RouteView::RespawnFlag(flag),
        arg.len() > 0,
        tab.sess.workdir is Some,
    ensures
        ({
            let step = command_step(tab, command, arg, mode);
            let args = launch_args(step.tab.sess, mode, false);
            &&& step.actions == seq![
                ActionView::Render,
                ActionView::Spawn { gen: step.tab.gen, args },
            ]
            &&& step.tab.sess.session_id == tab.sess.session_id
            &&& flag == MODE_FLAG@ ==> permission_mode(step.tab.sess, mode, false) == Some(arg)
            &&& flag != MODE_FLAG@ ==> args.len() >= 2 && args[args.len() - 2] == flag
                && args.last() == arg
        }),
{
    let step = command_step(tab, command, arg, mode);
    law_set_flag(tab.sess.overrides, flag, arg, flag);
    assert(step.actions =~= seq![
        ActionView::Render,
        ActionView::Spawn {
            gen: step.tab.gen,
            args: launch_args(step.tab.sess, mode, false),
        },
    ]);
    if flag != MODE_FLAG@ {
        let kept = without_flag(tab.sess.overrides, flag);
        let others = without_flag(kept, MODE_FLAG@);
        assert(without_flag(kept.push((flag, arg)), MODE_FLAG@) == others.push((flag, arg))) by {
            reveal(Seq::filter);
            assert(kept.push((flag, arg)).drop_last() =~= kept);
        }
        lemma_flag_args_push(others, flag, arg);
    }
}

/// The permission mode is handed over once: beside it no other flag sets it.
pub proof fn law_mode_passed_once(session: SessionView, i: int)
    requires
        0 <= i < without_flag(session.overrides, MODE_FLAG@).len(),
    ensures
        without_flag(session.overrides, MODE_FLAG@)[i].0 != MODE_FLAG@,
{
    lemma_without_flag(session.overrides, MODE_FLAG@);
}

} // verus!
