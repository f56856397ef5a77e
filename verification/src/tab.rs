//! A tab: one session with its transcript, as a machine that takes what happens and says what is
//! to be done.

use crate::commands::{
    cmd_help_text, command_called, help_text, lookup_cmd, Cmd, CmdView, Local, Route, RouteView,
};
use crate::errlog::{log_message, message};
use crate::json::{json_of, json_text};
use crate::names::{Message, MessageView, Names, NamesView, Who};
use crate::render::{page, render};
use crate::session::{
    copy_flags, find_flag, flag_value, fresh, launch_args, or_else, set_override, status,
    with_flag, Session, SessionView,
};
use crate::text::{
    add_text, begins_with, decimal, decimal_text, first_word, join, joined, leads_with,
    rest_of_words, same, split_word, text_or, trim, trimmed, with_text,
};
use crate::wire::{user_line, user_tree, Ev, EvView, TurnResult, TurnView};
use vstd::prelude::*;

verus! {

/// Something to be done in the window or to the program behind it.
#[derive(Debug, PartialEq, Eq)]
pub enum Action {
    /// Show the transcript as it is now.
    Render,
    /// Show the transcript a little later, and say so when it is done.
    ScheduleRender,
    /// Show a short text about what is going on.
    Status(String),
    /// Let the user write, paste and send, or not.
    Inputs(bool),
    /// Let the user approve, or not.
    Approve(bool),
    /// Empty the input line.
    ClearEntry,
    /// Show the folder of the session.
    Folder(String),
    /// Make an end of the program.
    Kill,
    /// Make an end of the program and launch a new one, whose reports carry `gen`.
    Spawn { gen: u64, args: Vec<String> },
    /// Write a line to the program, and say whether that worked.
    Send(String),
    /// Get an image off the clipboard.
    ReadClipboard,
}

/// `Action` over sequences.
pub enum ActionView {
    Render,
    ScheduleRender,
    Status(Seq<char>),
    Inputs(bool),
    Approve(bool),
    ClearEntry,
    Folder(Seq<char>),
    Kill,
    Spawn { gen: u64, args: Seq<Seq<char>> },
    Send(Seq<char>),
    ReadClipboard,
}

impl DeepView for Action {
    type V = ActionView;

    open spec fn deep_view(&self) -> ActionView {
        match self {
            Action::Render => ActionView::Render,
            Action::ScheduleRender => ActionView::ScheduleRender,
            Action::Status(text) => ActionView::Status(text@),
            Action::Inputs(on) => ActionView::Inputs(*on),
            Action::Approve(on) => ActionView::Approve(*on),
            Action::ClearEntry => ActionView::ClearEntry,
            Action::Folder(text) => ActionView::Folder(text@),
            Action::Kill => ActionView::Kill,
            Action::Spawn { gen, args } => ActionView::Spawn {
                gen: *gen,
                args: args.deep_view(),
            },
            Action::Send(line) => ActionView::Send(line@),
            Action::ReadClipboard => ActionView::ReadClipboard,
        }
    }
}

/// How many milliseconds "a little later" is.
pub const RENDER_DELAY_MS: u64 = 150;

/// One session with its transcript.
pub struct Tab {
    pub names: Names,
    pub sess: Session,
    pub msgs: Vec<Message>,
    /// The part of a reply that has come in so far.
    pub stream: String,
    /// The transcript is to be shown a little later.
    pub render_pending: bool,
    /// The generation of the program. Each launch begins a new one; what an earlier one still
    /// reports counts for nothing.
    pub gen: u64,
}

/// `Tab` over sequences.
#[verifier::ext_equal]
pub struct TabView {
    pub names: NamesView,
    pub sess: SessionView,
    pub msgs: Seq<MessageView>,
    pub stream: Seq<char>,
    pub render_pending: bool,
    pub gen: u64,
}

impl View for Tab {
    type V = TabView;

    open spec fn view(&self) -> TabView {
        TabView {
            names: self.names@,
            sess: self.sess@,
            msgs: self.msgs.deep_view(),
            stream: self.stream@,
            render_pending: self.render_pending,
            gen: self.gen,
        }
    }
}

/// A tab as something has left it, and what is to be done.
pub struct Step {
    pub tab: TabView,
    pub actions: Seq<ActionView>,
}

/// The transcript with one more message.
pub open spec fn with_message(tab: TabView, who: Who, text: Seq<char>) -> TabView {
    TabView { msgs: tab.msgs.push(MessageView { who, text }), ..tab }
}

/// A message from the system, and nothing else.
pub open spec fn notice(tab: TabView, text: Seq<char>) -> Step {
    Step { tab: with_message(tab, Who::System, text), actions: seq![ActionView::Render] }
}

/// Nothing.
pub open spec fn idle(tab: TabView) -> Step {
    Step { tab, actions: Seq::empty() }
}

/// The generation behind `gen`.
pub open spec fn next_gen(gen: u64) -> u64 {
    if gen == u64::MAX {
        0
    } else {
        (gen + 1) as u64
    }
}

/// A launch, where there is a folder to launch in: a new generation, and no program to write to
/// until it is up.
pub open spec fn launch(tab: TabView, mode: u32, accept_edits: bool) -> Step {
    if tab.sess.workdir is None {
        idle(tab)
    } else {
        Step {
            tab: TabView {
                gen: next_gen(tab.gen),
                sess: SessionView { running: false, ..tab.sess },
                ..tab
            },
            actions: seq![
                ActionView::Spawn {
                    gen: next_gen(tab.gen),
                    args: launch_args(tab.sess, mode, accept_edits),
                },
            ],
        }
    }
}

/// Some actions, and then a launch.
pub open spec fn then_launch(
    actions: Seq<ActionView>,
    tab: TabView,
    mode: u32,
    accept_edits: bool,
) -> Step {
    let step = launch(tab, mode, accept_edits);
    Step { tab: step.tab, actions: actions + step.actions }
}

/// Adds an action.
fn act(actions: &mut Vec<Action>, action: Action)
    ensures
        final(actions).deep_view() == old(actions).deep_view().push(action.deep_view()),
{
    actions.push(action);
    proof {
        assert(actions.deep_view() =~= old(actions).deep_view().push(action.deep_view()));
    }
}

/// No actions.
fn no_actions() -> (actions: Vec<Action>)
    ensures
        actions.deep_view() == Seq::<ActionView>::empty(),
{
    let actions: Vec<Action> = Vec::new();
    proof {
        assert(actions.deep_view() =~= Seq::<ActionView>::empty());
    }
    actions
}

impl Tab {
    /// A tab without a folder, a session or a message.
    pub fn new(names: Names) -> (tab: Tab)
        ensures
            tab@ == (TabView {
                names: names@,
                sess: fresh(None),
                msgs: Seq::empty(),
                stream: Seq::empty(),
                render_pending: false,
                gen: 0,
            }),
    {
        let tab = Tab {
            names,
            sess: Session::new(None),
            msgs: Vec::new(),
            stream: String::new(),
            render_pending: false,
            gen: 0,
        };
        proof {
            assert(tab.msgs.deep_view() =~= Seq::empty());
        }
        tab
    }

    /// The page that shows the transcript.
    pub fn render(&self) -> (html: String)
        ensures
            html@ == page(self@.names, self@.msgs, self@.stream),
    {
        render(&self.names, &self.msgs, self.stream.as_str())
    }

    /// Adds a message to the transcript, and has it shown.
    pub fn push_msg(&mut self, actions: &mut Vec<Action>, who: Who, text: &str)
        ensures
            final(self)@ == with_message(old(self)@, who, text@),
            final(actions).deep_view() == old(actions).deep_view().push(ActionView::Render),
    {
        self.msgs.push(Message { who, text: text.to_owned() });
        act(actions, Action::Render);
        proof {
            assert(self.msgs.deep_view() =~= old(self).msgs.deep_view().push(
                MessageView { who, text: text@ },
            ));
        }
    }

    /// Adds a message from the system.
    fn notice(&mut self, text: &str) -> (actions: Vec<Action>)
        ensures
            final(self)@ == notice(old(self)@, text@).tab,
            actions.deep_view() == notice(old(self)@, text@).actions,
    {
        let mut actions = no_actions();
        self.push_msg(&mut actions, Who::System, text);
        actions
    }

    /// Launches the program anew, behind the actions that are there already.
    pub fn spawn_proc(&mut self, actions: &mut Vec<Action>, mode: u32, accept_edits: bool)
        ensures
            final(self)@ == launch(old(self)@, mode, accept_edits).tab,
            final(actions).deep_view() == old(actions).deep_view() + launch(
                old(self)@,
                mode,
                accept_edits,
            ).actions,
    {
        if self.sess.workdir.is_some() {
            let args = self.sess.launch_args(mode, accept_edits);
            self.gen = self.gen.wrapping_add(1);
            self.sess.running = false;
            act(actions, Action::Spawn { gen: self.gen, args });
        }
        proof {
            assert(actions.deep_view() =~= old(actions).deep_view() + launch(
                old(self)@,
                mode,
                accept_edits,
            ).actions);
        }
    }
}

/// What is told where there is no folder yet.
pub open spec fn no_folder(tab: TabView) -> Step {
    notice(tab, "Choose a folder first."@)
}

/// A fresh session in the same folder, with the same flags: the transcript starts over. As with
/// any command that launches the program, the flags are yet to prove good, and the session's id is
/// kept until they have.
pub open spec fn clear_step(tab: TabView, mode: u32) -> Step {
    if tab.sess.workdir is None {
        no_folder(tab)
    } else {
        let cleared = TabView {
            sess: SessionView {
                session_id: None,
                pending_approval: false,
                pending_dirs: Seq::empty(),
                cmd_pending: true,
                cmd_recovering: false,
                kept_id: tab.sess.session_id,
                ..tab.sess
            },
            msgs: Seq::empty(),
            stream: Seq::empty(),
            ..tab
        };
        then_launch(
            seq![ActionView::Approve(false), ActionView::Render],
            with_message(
                cleared,
                Who::System,
                "Cleared — fresh session (previous context dropped)."@,
            ),
            mode,
            false,
        )
    }
}

/// What a flag's command shows as current: for the model what the program reported, for any other
/// flag what was set.
pub open spec fn current_value(session: SessionView, flag: Seq<char>) -> Seq<char> {
    text_or(
        if flag == "--model"@ {
            session.model
        } else {
            flag_value(session.overrides, flag)
        },
        "(CLI default)"@,
    )
}

/// A flag's command: without an argument it tells the current value; with one it sets the flag to
/// it as it stands, and launches the program anew into the same session.
pub open spec fn flag_step(
    tab: TabView,
    command: CmdView,
    flag: Seq<char>,
    arg: Seq<char>,
    mode: u32,
) -> Step {
    if arg.len() == 0 {
        notice(
            tab,
            command.name + ": current = "@ + current_value(tab.sess, flag) + "\nUsage: "@
                + command.usage,
        )
    } else if tab.sess.workdir is None {
        no_folder(tab)
    } else {
        let set = TabView {
            sess: SessionView {
                overrides: with_flag(tab.sess.overrides, flag, arg),
                cmd_pending: true,
                cmd_recovering: false,
                kept_id: tab.sess.session_id,
                ..tab.sess
            },
            ..tab
        };
        then_launch(
            seq![ActionView::Render],
            with_message(
                set,
                Who::System,
                command.name + " → "@ + arg + " (restarting session; context kept)"@,
            ),
            mode,
            false,
        )
    }
}

/// What a command does, given its argument.
pub open spec fn command_step(
    tab: TabView,
    command: CmdView,
    arg: Seq<char>,
    mode: u32,
) -> Step {
    match command.route {
        RouteView::Local(Local::Help) => notice(tab, help_text(tab.names.label)),
        RouteView::Local(Local::Status) => notice(tab, status(tab.sess, mode)),
        RouteView::Clear => clear_step(tab, mode),
        RouteView::RespawnFlag(flag) => flag_step(tab, command, flag, arg, mode),
    }
}

/// What a line does as a command; nothing where its first word is none.
pub open spec fn line_step(tab: TabView, line: Seq<char>, mode: u32) -> Option<Step> {
    match command_called(first_word(line)) {
        Some(command) => Some(command_step(tab, command, rest_of_words(line), mode)),
        None => None,
    }
}

/// A line that is written to the program.
pub open spec fn send(text: Seq<char>) -> ActionView {
    ActionView::Send(json_text(user_tree(text)))
}

/// A message is one line on the wire, and is read back as that message.
pub open spec fn reads_back(text: Seq<char>) -> bool {
    let line = json_text(user_tree(text));
    !line.contains('\n') && json_of(line) == Some(user_tree(text))
}

/// Whatever is written to the program is the message `text`, and is read back as it.
pub open spec fn sends_only(actions: Seq<ActionView>, text: Seq<char>) -> bool {
    forall|i: int|
        0 <= i < actions.len() && #[trigger] actions[i] is Send ==> actions[i] == send(text)
            && reads_back(text)
}

/// What sending the input line does: a command is carried out; any other text, an unknown command
/// too, goes to the program as it stands.
pub open spec fn submit_step(tab: TabView, text: Seq<char>, mode: u32) -> Step {
    let command = if leads_with(text, '/') {
        line_step(tab, trimmed(text), mode)
    } else {
        None
    };
    if trimmed(text).len() == 0 {
        idle(tab)
    } else if command is Some {
        Step {
            tab: command->0.tab,
            actions: command->0.actions.push(ActionView::ClearEntry),
        }
    } else if !tab.sess.running {
        notice(tab, "No running session. Choose a folder first."@)
    } else {
        Step {
            tab: with_message(tab, Who::You, text),
            actions: seq![ActionView::ClearEntry, ActionView::Render, send(text)],
        }
    }
}

impl Tab {
    /// Starts a fresh session in the same folder.
    fn clear(&mut self, mode: u32) -> (actions: Vec<Action>)
        ensures
            final(self)@ == clear_step(old(self)@, mode).tab,
            actions.deep_view() == clear_step(old(self)@, mode).actions,
    {
        if self.sess.workdir.is_none() {
            return self.notice("Choose a folder first.");
        }
        self.sess.kept_id = self.sess.session_id.clone();
        self.sess.session_id = None;
        self.sess.pending_approval = false;
        self.sess.pending_dirs = Vec::new();
        self.sess.cmd_pending = true;
        self.sess.cmd_recovering = false;
        self.msgs = Vec::new();
        self.stream = String::new();
        proof {
            assert(self.sess.pending_dirs.deep_view() =~= Seq::empty());
            assert(self.msgs.deep_view() =~= Seq::empty());
        }
        let mut actions = no_actions();
        act(&mut actions, Action::Approve(false));
        self.push_msg(
            &mut actions,
            Who::System,
            "Cleared — fresh session (previous context dropped).",
        );
        self.spawn_proc(&mut actions, mode, false);
        actions
    }

    /// Carries out a flag's command.
    fn flag_command(
        &mut self,
        command: &Cmd,
        flag: &str,
        arg: &str,
        mode: u32,
    ) -> (actions: Vec<Action>)
        ensures
            final(self)@ == flag_step(old(self)@, command.deep_view(), flag@, arg@, mode).tab,
            actions.deep_view() == flag_step(
                old(self)@,
                command.deep_view(),
                flag@,
                arg@,
                mode,
            ).actions,
    {
        if arg.is_empty() {
            let current = if same(flag, "--model") {
                self.sess.model.clone()
            } else {
                find_flag(&self.sess.overrides, flag)
            };
            let mut text = command.name.to_owned();
            text.append(": current = ");
            text.append(or_else(&current, "(CLI default)"));
            text.append("\nUsage: ");
            text.append(command.usage);
            return self.notice(text.as_str());
        }
        if self.sess.workdir.is_none() {
            return self.notice("Choose a folder first.");
        }
        set_override(&mut self.sess, flag, arg);
        self.sess.kept_id = self.sess.session_id.clone();
        self.sess.cmd_pending = true;
        self.sess.cmd_recovering = false;
        let mut text = command.name.to_owned();
        text.append(" → ");
        text.append(arg);
        text.append(" (restarting session; context kept)");
        let mut actions = no_actions();
        self.push_msg(&mut actions, Who::System, text.as_str());
        self.spawn_proc(&mut actions, mode, false);
        actions
    }

    /// Carries out a line whose first word is a command; does nothing with any other line.
    pub fn handle_command(&mut self, line: &str, mode: u32) -> (res: Option<Vec<Action>>)
        ensures
            match line_step(old(self)@, line@, mode) {
                Some(step) => {
                    &&& res is Some
                    &&& res->0.deep_view() == step.actions
                    &&& final(self)@ == step.tab
                },
                None => res is None && final(self)@ == old(self)@,
            },
    {
        let (name, arg) = split_word(line);
        match lookup_cmd(name.as_str()) {
            None => None,
            Some(command) => Some(
                match &command.route {
                    Route::Local(Local::Help) => {
                        let text = cmd_help_text(self.names.label.as_str());
                        self.notice(text.as_str())
                    },
                    Route::Local(Local::Status) => {
                        let text = self.sess.status_text(mode);
                        self.notice(text.as_str())
                    },
                    Route::Clear => self.clear(mode),
                    Route::RespawnFlag(flag) => self.flag_command(
                        &command,
                        *flag,
                        arg.as_str(),
                        mode,
                    ),
                },
            ),
        }
    }

    /// Hands the message to the program.
    pub fn send_turn(&self, actions: &mut Vec<Action>, text: &str)
        ensures
            final(actions).deep_view() == old(actions).deep_view().push(send(text@)),
            reads_back(text@),
    {
        act(actions, Action::Send(user_line(text)));
    }

    /// The user sends the input line.
    pub fn submit(&mut self, text: &str, mode: u32) -> (actions: Vec<Action>)
        ensures
            final(self)@ == submit_step(old(self)@, text@, mode).tab,
            actions.deep_view() == submit_step(old(self)@, text@, mode).actions,
            sends_only(actions.deep_view(), text@),
    {
        let line = trim(text);
        if line.as_str().is_empty() {
            return no_actions();
        }
        if begins_with(text, '/') {
            if let Some(mut actions) = self.handle_command(line.as_str(), mode) {
                act(&mut actions, Action::ClearEntry);
                return actions;
            }
        }
        if !self.sess.running {
            return self.notice("No running session. Choose a folder first.");
        }
        let mut actions = no_actions();
        act(&mut actions, Action::ClearEntry);
        self.push_msg(&mut actions, Who::You, text);
        self.send_turn(&mut actions, text);
        actions
    }
}

/// The flags count as good once a program has come up with them.
pub open spec fn confirmed(session: SessionView) -> SessionView {
    if session.cmd_pending {
        SessionView {
            cmd_pending: false,
            cmd_recovering: false,
            good_overrides: session.overrides,
            ..session
        }
    } else {
        session
    }
}

/// A text where there is one, or else the one that was there before.
pub open spec fn newer(text: Option<Seq<char>>, before: Option<Seq<char>>) -> Option<Seq<char>> {
    if text is Some {
        text
    } else {
        before
    }
}

/// The program is up.
pub open spec fn init_step(
    tab: TabView,
    model: Option<Seq<char>>,
    session_id: Option<Seq<char>>,
) -> Step {
    idle(
        TabView {
            sess: confirmed(
                SessionView {
                    model: newer(model, tab.sess.model),
                    session_id: newer(session_id, tab.sess.session_id),
                    ..tab.sess
                },
            ),
            ..tab
        },
    )
}

/// The transcript is to be shown a little later. Where it already is to be, nothing more is asked.
pub open spec fn schedule_step(tab: TabView) -> Step {
    if tab.render_pending {
        idle(tab)
    } else {
        Step {
            tab: TabView { render_pending: true, ..tab },
            actions: seq![ActionView::ScheduleRender],
        }
    }
}

/// What the user is told where a turn was refused something.
pub open spec fn permission_text(names: NamesView, denials: Seq<Seq<char>>) -> Seq<char> {
    names.label + " needs permission for:\n  "@ + joined(denials, "\n  "@)
        + "\n>>> Click [Approve] to allow and continue. Typing does NOT grant it. <<<"@
}

/// The turn is over: its reply stands in the transcript, and what it was refused awaits approval.
pub open spec fn turn_step(tab: TabView, turn: TurnView) -> Step {
    let replied = with_message(
        TabView {
            sess: confirmed(
                SessionView {
                    session_id: newer(turn.session_id, tab.sess.session_id),
                    last_usage: Some(turn.usage),
                    ..tab.sess
                },
            ),
            stream: Seq::empty(),
            ..tab
        },
        Who::Assistant,
        turn.result,
    );
    if turn.denials.len() > 0 {
        Step {
            tab: with_message(
                TabView {
                    sess: SessionView {
                        pending_approval: true,
                        pending_dirs: turn.denied_dirs,
                        ..replied.sess
                    },
                    ..replied
                },
                Who::System,
                permission_text(tab.names, turn.denials),
            ),
            actions: seq![
                ActionView::Render,
                ActionView::Render,
                ActionView::Approve(true),
                ActionView::Status(""@),
                ActionView::Inputs(true),
            ],
        }
    } else {
        Step {
            tab: TabView {
                sess: SessionView { pending_approval: false, ..replied.sess },
                ..replied
            },
            actions: seq![
                ActionView::Render,
                ActionView::Status(""@),
                ActionView::Inputs(true),
            ],
        }
    }
}

/// The end of a program that a command launched and that has not come up: what the command set was
/// bad. The flags become what they were when a program last came up, and it is launched once more
/// into the session that the command found.
pub open spec fn rollback_step(tab: TabView, log: Seq<char>, mode: u32) -> Step {
    let back = TabView {
        sess: SessionView {
            session_id: tab.sess.kept_id,
            overrides: tab.sess.good_overrides,
            cmd_pending: false,
            cmd_recovering: true,
            ..tab.sess
        },
        stream: Seq::empty(),
        ..tab
    };
    then_launch(
        seq![ActionView::Render],
        with_message(
            back,
            Who::System,
            "Command rejected by the CLI — reverting to the previous config and continuing:\n"@
                + text_or(log_message(log), "the process exited immediately"@),
        ),
        mode,
        false,
    )
}

/// What the user is told at the end of a program.
pub open spec fn end_text(session: SessionView, why: Seq<char>, log: Seq<char>) -> Seq<char> {
    let first = "(session process ended: "@ + why + (if session.cmd_recovering {
        " (recovery also failed)"@
    } else {
        ""@
    }) + ")"@;
    match log_message(log) {
        Some(error) => first + "\n"@ + error,
        None => first,
    }
}

/// The program is gone.
pub open spec fn ended_step(tab: TabView, why: Seq<char>, log: Seq<char>, mode: u32) -> Step {
    if tab.sess.cmd_pending && !tab.sess.cmd_recovering {
        rollback_step(tab, log, mode)
    } else {
        Step {
            tab: with_message(
                TabView { stream: Seq::empty(), ..tab },
                Who::System,
                end_text(tab.sess, why, log),
            ),
            actions: seq![
                ActionView::Render,
                ActionView::Status(""@),
                ActionView::Inputs(false),
            ],
        }
    }
}

/// What a report of the current program does, `log` being its error log.
pub open spec fn report_step(tab: TabView, ev: EvView, log: Seq<char>, mode: u32) -> Step {
    match ev {
        EvView::Init { model, session_id } => init_step(tab, model, session_id),
        EvView::Delta(text) => schedule_step(TabView { stream: tab.stream + text, ..tab }),
        EvView::Tool(label) => Step {
            tab: with_message(tab, Who::Tool, label),
            actions: seq![ActionView::Status("🔧 working…"@), ActionView::Render],
        },
        EvView::Thinking => Step { tab, actions: seq![ActionView::Status("💭 thinking…"@)] },
        EvView::Turn(turn) => turn_step(tab, turn),
        EvView::Ended(why) => ended_step(tab, why, log, mode),
    }
}

/// What a report of the program of generation `gen` does. An earlier program's report does nothing.
pub open spec fn event_step(
    tab: TabView,
    gen: u64,
    ev: EvView,
    log: Seq<char>,
    mode: u32,
) -> Step {
    if gen == tab.gen {
        report_step(tab, ev, log, mode)
    } else {
        idle(tab)
    }
}

impl Tab {
    /// Takes the flags as good, where a command's relaunch has come up.
    fn confirm(&mut self)
        ensures
            final(self)@ == (TabView { sess: confirmed(old(self)@.sess), ..old(self)@ }),
    {
        if self.sess.cmd_pending {
            self.sess.cmd_pending = false;
            self.sess.cmd_recovering = false;
            self.sess.good_overrides = copy_flags(&self.sess.overrides);
        }
    }

    /// Asks for the transcript to be shown a little later, unless that was asked already.
    pub fn schedule_render(&mut self, actions: &mut Vec<Action>)
        ensures
            final(self)@ == schedule_step(old(self)@).tab,
            final(actions).deep_view() == old(actions).deep_view() + schedule_step(
                old(self)@,
            ).actions,
    {
        if !self.render_pending {
            self.render_pending = true;
            act(actions, Action::ScheduleRender);
        }
        proof {
            assert(actions.deep_view() =~= old(actions).deep_view() + schedule_step(
                old(self)@,
            ).actions);
        }
    }

    /// The turn is over.
    fn turn_over(&mut self, turn: TurnResult) -> (actions: Vec<Action>)
        ensures
            final(self)@ == turn_step(old(self)@, turn.deep_view()).tab,
            actions.deep_view() == turn_step(old(self)@, turn.deep_view()).actions,
    {
        let ghost said = turn.deep_view();
        let mut actions = no_actions();
        self.stream = String::new();
        if turn.session_id.is_some() {
            self.sess.session_id = turn.session_id;
        }
        self.sess.last_usage = Some(turn.usage);
        self.confirm();
        self.push_msg(&mut actions, Who::Assistant, turn.result.as_str());
        if !turn.denials.is_empty() {
            self.sess.pending_approval = true;
            self.sess.pending_dirs = turn.denied_dirs;
            let mut text = self.names.label.clone();
            text.append(" needs permission for:\n  ");
            text.append(join(&turn.denials, "\n  ").as_str());
            text.append(
                "\n>>> Click [Approve] to allow and continue. Typing does NOT grant it. <<<",
            );
            self.push_msg(&mut actions, Who::System, text.as_str());
            act(&mut actions, Action::Approve(true));
        } else {
            self.sess.pending_approval = false;
        }
        act(&mut actions, Action::Status("".to_owned()));
        act(&mut actions, Action::Inputs(true));
        actions
    }

    /// The program is gone.
    fn program_gone(&mut self, why: &str, log: &str, mode: u32) -> (actions: Vec<Action>)
        ensures
            final(self)@ == ended_step(old(self)@, why@, log@, mode).tab,
            actions.deep_view() == ended_step(old(self)@, why@, log@, mode).actions,
    {
        let error = message(log);
        let mut actions = no_actions();
        self.stream = String::new();
        if self.sess.cmd_pending && !self.sess.cmd_recovering {
            self.sess.session_id = self.sess.kept_id.clone();
            self.sess.overrides = copy_flags(&self.sess.good_overrides);
            self.sess.cmd_pending = false;
            self.sess.cmd_recovering = true;
            let mut text =
                "Command rejected by the CLI — reverting to the previous config and continuing:\n".to_owned();
            text.append(or_else(&error, "the process exited immediately"));
            self.push_msg(&mut actions, Who::System, text.as_str());
            self.spawn_proc(&mut actions, mode, false);
            return actions;
        }
        let mut text = "(session process ended: ".to_owned();
        text.append(why);
        text.append(
            if self.sess.cmd_recovering {
                " (recovery also failed)"
            } else {
                ""
            },
        );
        text.append(")");
        if let Some(error) = error {
            text.append("\n");
            text.append(error.as_str());
        }
        self.push_msg(&mut actions, Who::System, text.as_str());
        act(&mut actions, Action::Status("".to_owned()));
        act(&mut actions, Action::Inputs(false));
        actions
    }

    /// The program of generation `gen` reports something. Tells whether to go on listening to it:
    /// not behind its end, and not once a later program has taken its place.
    pub fn report(&mut self, gen: u64, ev: Ev, log: &str, mode: u32) -> (res: (Vec<Action>, bool))
        ensures
            final(self)@ == event_step(old(self)@, gen, ev.deep_view(), log@, mode).tab,
            res.0.deep_view() == event_step(old(self)@, gen, ev.deep_view(), log@, mode).actions,
            res.1 == (gen == old(self)@.gen && !(ev is Ended)),
    {
        if gen != self.gen {
            return (no_actions(), false);
        }
        let mut actions = no_actions();
        match ev {
            Ev::Init { model, session_id } => {
                if model.is_some() {
                    self.sess.model = model;
                }
                if session_id.is_some() {
                    self.sess.session_id = session_id;
                }
                self.confirm();
                (actions, true)
            },
            Ev::Delta(text) => {
                self.stream.append(text.as_str());
                self.schedule_render(&mut actions);
                proof {
                    assert(actions.deep_view() =~= schedule_step(
                        TabView { stream: old(self)@.stream + text@, ..old(self)@ },
                    ).actions);
                }
                (actions, true)
            },
            Ev::Tool(label) => {
                act(&mut actions, Action::Status("🔧 working…".to_owned()));
                self.push_msg(&mut actions, Who::Tool, label.as_str());
                (actions, true)
            },
            Ev::Thinking => {
                act(&mut actions, Action::Status("💭 thinking…".to_owned()));
                (actions, true)
            },
            Ev::Turn(turn) => (self.turn_over(turn), true),
            Ev::Ended(why) => (self.program_gone(why.as_str(), log, mode), false),
        }
    }
}

/// What comes of writing a line to the program.
pub open spec fn sent_step(tab: TabView, ok: bool) -> Step {
    if ok {
        Step {
            tab,
            actions: seq![
                ActionView::Status("⏳ working…"@),
                ActionView::Inputs(false),
                ActionView::Approve(false),
            ],
        }
    } else {
        notice(tab, "Error: session process not running. Re-choose the folder."@)
    }
}

/// What comes of a launch: a program to write to, or what went wrong.
pub open spec fn launched_step(tab: TabView, error: Option<Seq<char>>) -> Step {
    match error {
        None => idle(TabView { sess: SessionView { running: true, ..tab.sess }, ..tab }),
        Some(error) => notice(
            tab,
            "Failed to launch "@ + tab.names.program + ": "@ + error,
        ),
    }
}

/// The time has come to show the transcript.
pub open spec fn render_due_step(tab: TabView) -> Step {
    Step {
        tab: TabView { render_pending: false, ..tab },
        actions: seq![ActionView::Render],
    }
}

/// A folder is chosen: everything starts over in it.
pub open spec fn choose_step(tab: TabView, folder: Seq<char>, mode: u32) -> Step {
    then_launch(
        seq![
            ActionView::Kill,
            ActionView::Folder(folder),
            ActionView::Inputs(true),
            ActionView::Approve(false),
            ActionView::Render,
        ],
        with_message(
            TabView {
                sess: fresh(Some(folder)),
                msgs: Seq::empty(),
                stream: Seq::empty(),
                ..tab
            },
            Who::System,
            "Folder set. Persistent session started; streaming on."@,
        ),
        mode,
        false,
    )
}

/// Another row of the mode list is chosen.
pub open spec fn mode_step(tab: TabView, mode: u32) -> Step {
    if tab.sess.workdir is None {
        idle(tab)
    } else {
        then_launch(
            seq![ActionView::Render],
            with_message(
                tab,
                Who::System,
                "Mode changed — restarting session (context kept)."@,
            ),
            mode,
            false,
        )
    }
}

/// The folders that are open, with some more.
pub open spec fn granted(allowed: Seq<Seq<char>>, dirs: Seq<Seq<char>>) -> Seq<Seq<char>>
    decreases dirs.len(),
{
    if dirs.len() == 0 {
        allowed
    } else {
        with_text(granted(allowed, dirs.drop_last()), dirs.last())
    }
}

/// What the program is told behind an approval.
pub open spec fn go_ahead() -> Seq<char> {
    "Approved. Proceed with the action you described."@
}

/// The user approves: the folders that a turn asked for are opened up, and it is told to go on in a
/// program that accepts edits. Where nothing was asked for, nothing is done.
pub open spec fn approve_step(tab: TabView, mode: u32) -> Step {
    if !tab.sess.pending_approval {
        idle(tab)
    } else {
        let step = then_launch(
            seq![ActionView::Render],
            with_message(
                TabView {
                    sess: SessionView {
                        pending_approval: false,
                        pending_dirs: Seq::empty(),
                        allowed_dirs: granted(tab.sess.allowed_dirs, tab.sess.pending_dirs),
                        ..tab.sess
                    },
                    ..tab
                },
                Who::You,
                "[Approved — restarting session with access, continuing]"@,
            ),
            mode,
            true,
        );
        Step { tab: step.tab, actions: step.actions.push(send(go_ahead())) }
    }
}

/// The user asks for an image to be pasted.
pub open spec fn image_step(tab: TabView) -> Step {
    if tab.sess.workdir is None {
        no_folder(tab)
    } else if !tab.sess.running {
        notice(tab, "No running session."@)
    } else {
        Step { tab, actions: seq![ActionView::ReadClipboard] }
    }
}

/// The file that an image is saved to.
pub open spec fn paste_file(millis: nat) -> Seq<char> {
    ".ccgui-paste-"@ + decimal_text(millis) + ".png"@
}

/// What the program is told of a pasted image, with what the user wrote beside it.
pub open spec fn paste_text(path: Seq<char>, extra: Seq<char>) -> Seq<char> {
    "我粘贴了一张图片，请先用 Read 工具查看这个文件，再回答：\n"@ + path + "\n"@ + extra
}

/// An image is saved.
pub open spec fn pasted_step(
    tab: TabView,
    file: Seq<char>,
    path: Seq<char>,
    extra: Seq<char>,
) -> Step {
    Step {
        tab: with_message(tab, Who::You, "[pasted image: "@ + file + "] "@ + extra),
        actions: seq![
            ActionView::ClearEntry,
            ActionView::Render,
            send(paste_text(path, extra)),
        ],
    }
}

/// Why no image was pasted.
#[derive(Debug, PartialEq, Eq)]
pub enum PasteError {
    /// The clipboard holds no image.
    Empty,
    /// The clipboard could not be read.
    Unreadable(String),
    /// The image could not be saved.
    Unsaved(String),
}

/// What the user is told where no image was pasted.
pub open spec fn paste_error_text(error: PasteError) -> Seq<char> {
    match error {
        PasteError::Empty => "Clipboard has no image."@,
        PasteError::Unreadable(why) => "Clipboard read failed: "@ + why@,
        PasteError::Unsaved(why) => "Failed to save pasted image: "@ + why@,
    }
}

/// The name of the file for an image pasted at a time, in milliseconds.
pub fn paste_name(millis: u128) -> (name: String)
    ensures
        name@ == paste_file(millis as nat),
{
    let mut name = ".ccgui-paste-".to_owned();
    name.append(decimal(millis).as_str());
    name.append(".png");
    name
}

impl Tab {
    /// A line was written to the program, or could not be.
    pub fn sent(&mut self, ok: bool) -> (actions: Vec<Action>)
        ensures
            final(self)@ == sent_step(old(self)@, ok).tab,
            actions.deep_view() == sent_step(old(self)@, ok).actions,
    {
        if !ok {
            return self.notice("Error: session process not running. Re-choose the folder.");
        }
        let mut actions = no_actions();
        act(&mut actions, Action::Status("⏳ working…".to_owned()));
        act(&mut actions, Action::Inputs(false));
        act(&mut actions, Action::Approve(false));
        actions
    }

    /// The program was launched, or could not be.
    pub fn launched(&mut self, error: Option<&str>) -> (actions: Vec<Action>)
        ensures
            final(self)@ == launched_step(old(self)@, error.deep_view()).tab,
            actions.deep_view() == launched_step(old(self)@, error.deep_view()).actions,
    {
        match error {
            None => {
                self.sess.running = true;
                no_actions()
            },
            Some(error) => {
                let mut text = "Failed to launch ".to_owned();
                text.append(self.names.program.as_str());
                text.append(": ");
                text.append(error);
                self.notice(text.as_str())
            },
        }
    }

    /// The time has come to show the transcript.
    pub fn render_due(&mut self) -> (actions: Vec<Action>)
        ensures
            final(self)@ == render_due_step(old(self)@).tab,
            actions.deep_view() == render_due_step(old(self)@).actions,
    {
        self.render_pending = false;
        let mut actions = no_actions();
        act(&mut actions, Action::Render);
        actions
    }

    /// The user chooses a folder.
    pub fn choose_folder(&mut self, folder: &str, mode: u32) -> (actions: Vec<Action>)
        ensures
            final(self)@ == choose_step(old(self)@, folder@, mode).tab,
            actions.deep_view() == choose_step(old(self)@, folder@, mode).actions,
    {
        self.sess = Session::new(Some(folder.to_owned()));
        self.msgs = Vec::new();
        self.stream = String::new();
        proof {
            assert(self.msgs.deep_view() =~= Seq::empty());
        }
        let mut actions = no_actions();
        act(&mut actions, Action::Kill);
        act(&mut actions, Action::Folder(folder.to_owned()));
        act(&mut actions, Action::Inputs(true));
        act(&mut actions, Action::Approve(false));
        self.push_msg(
            &mut actions,
            Who::System,
            "Folder set. Persistent session started; streaming on.",
        );
        self.spawn_proc(&mut actions, mode, false);
        actions
    }

    /// The user chooses another row of the mode list.
    pub fn change_mode(&mut self, mode: u32) -> (actions: Vec<Action>)
        ensures
            final(self)@ == mode_step(old(self)@, mode).tab,
            actions.deep_view() == mode_step(old(self)@, mode).actions,
    {
        let mut actions = no_actions();
        if self.sess.workdir.is_some() {
            self.push_msg(
                &mut actions,
                Who::System,
                "Mode changed — restarting session (context kept).",
            );
            self.spawn_proc(&mut actions, mode, false);
        }
        actions
    }

    /// Opens up the folders that await approval.
    fn grant(&mut self)
        ensures
            final(self)@ == (TabView {
                sess: SessionView {
                    pending_approval: false,
                    pending_dirs: Seq::empty(),
                    allowed_dirs: granted(
                        old(self)@.sess.allowed_dirs,
                        old(self)@.sess.pending_dirs,
                    ),
                    ..old(self)@.sess
                },
                ..old(self)@
            }),
    {
        let ghost start = self@;
        let ghost dirs = self.sess.pending_dirs.deep_view();
        proof {
            assert(granted(start.sess.allowed_dirs, dirs.take(0)) == start.sess.allowed_dirs);
        }
        let count = self.sess.pending_dirs.len();
        for i in 0..count
            invariant
                count == dirs.len(),
                dirs == self.sess.pending_dirs.deep_view(),
                self@ == (TabView {
                    sess: SessionView {
                        allowed_dirs: granted(start.sess.allowed_dirs, dirs.take(i as int)),
                        ..start.sess
                    },
                    ..start
                }),
        {
            proof {
                assert(dirs.take(i + 1).drop_last() =~= dirs.take(i as int));
                assert(dirs[i as int] == self.sess.pending_dirs@[i as int]@);
            }
            let dir = self.sess.pending_dirs[i].clone();
            add_text(&mut self.sess.allowed_dirs, dir);
        }
        self.sess.pending_dirs = Vec::new();
        self.sess.pending_approval = false;
        proof {
            assert(dirs.take(dirs.len() as int) =~= dirs);
            assert(self.sess.pending_dirs.deep_view() =~= Seq::empty());
        }
    }

    /// The user approves what a turn asked for.
    pub fn approve(&mut self, mode: u32) -> (actions: Vec<Action>)
        ensures
            final(self)@ == approve_step(old(self)@, mode).tab,
            actions.deep_view() == approve_step(old(self)@, mode).actions,
            sends_only(actions.deep_view(), go_ahead()),
    {
        let mut actions = no_actions();
        if self.sess.pending_approval {
            self.grant();
            self.push_msg(
                &mut actions,
                Who::You,
                "[Approved — restarting session with access, continuing]",
            );
            self.spawn_proc(&mut actions, mode, true);
            self.send_turn(&mut actions, "Approved. Proceed with the action you described.");
        }
        actions
    }

    /// The user asks for an image to be pasted.
    pub fn paste_image(&mut self) -> (actions: Vec<Action>)
        ensures
            final(self)@ == image_step(old(self)@).tab,
            actions.deep_view() == image_step(old(self)@).actions,
    {
        if self.sess.workdir.is_none() {
            return self.notice("Choose a folder first.");
        }
        if !self.sess.running {
            return self.notice("No running session.");
        }
        let mut actions = no_actions();
        act(&mut actions, Action::ReadClipboard);
        actions
    }

    /// An image was saved to `file`, whose full path is `path`; `extra` is the input line.
    pub fn pasted(&mut self, file: &str, path: &str, extra: &str) -> (actions: Vec<Action>)
        ensures
            final(self)@ == pasted_step(old(self)@, file@, path@, extra@).tab,
            actions.deep_view() == pasted_step(old(self)@, file@, path@, extra@).actions,
            sends_only(actions.deep_view(), paste_text(path@, extra@)),
    {
        let mut actions = no_actions();
        act(&mut actions, Action::ClearEntry);
        let mut shown = "[pasted image: ".to_owned();
        shown.append(file);
        shown.append("] ");
        shown.append(extra);
        self.push_msg(&mut actions, Who::You, shown.as_str());
        let mut text =
            "我粘贴了一张图片，请先用 Read 工具查看这个文件，再回答：\n".to_owned();
        text.append(path);
        text.append("\n");
        text.append(extra);
        self.send_turn(&mut actions, text.as_str());
        actions
    }

    /// No image was pasted.
    pub fn not_pasted(&mut self, error: PasteError) -> (actions: Vec<Action>)
        ensures
            final(self)@ == notice(old(self)@, paste_error_text(error)).tab,
            actions.deep_view() == notice(old(self)@, paste_error_text(error)).actions,
    {
        let text = match error {
            PasteError::Empty => "Clipboard has no image.".to_owned(),
            PasteError::Unreadable(why) => {
                let mut text = "Clipboard read failed: ".to_owned();
                text.append(why.as_str());
                text
            },
            PasteError::Unsaved(why) => {
                let mut text = "Failed to save pasted image: ".to_owned();
                text.append(why.as_str());
                text
            },
        };
        self.notice(text.as_str())
    }
}

} // verus!
