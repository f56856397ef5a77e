use ccgui::commands::cmd_help_text;
use ccgui::names::{Message, Names, Who, BIN_VAR};
use ccgui::tab::{paste_name, Action, PasteError, Tab, RENDER_DELAY_MS};
use ccgui::wire::{user_line, Ev, TurnResult, Usage, STREAM_CLOSED};

fn names() -> Names {
    Names { label: "Helper".to_string(), program: "helper".to_string() }
}

fn new_tab() -> Tab {
    Tab::new(names())
}

/// A tab with a folder and a program that is up.
fn running_tab() -> Tab {
    let mut tab = new_tab();
    tab.choose_folder("/work", 0);
    assert_eq!(tab.launched(None), vec![]);
    tab.report(1, init(Some("m1"), Some("s1")), "", 0);
    tab
}

fn init(model: Option<&str>, session_id: Option<&str>) -> Ev {
    Ev::Init {
        model: model.map(str::to_string),
        session_id: session_id.map(str::to_string),
    }
}

fn turn(result: &str, denials: &[&str], denied_dirs: &[&str]) -> TurnResult {
    TurnResult {
        result: result.to_string(),
        session_id: None,
        usage: Usage { input: 1, cache_create: 2, cache_read: 3, output: 4 },
        denials: denials.iter().map(|text| text.to_string()).collect(),
        denied_dirs: denied_dirs.iter().map(|text| text.to_string()).collect(),
    }
}

fn ended() -> Ev {
    Ev::Ended("stream closed".to_string())
}

fn spawn(gen: u64, rest: &[&str]) -> Action {
    let common = [
        "-p",
        "--input-format",
        "stream-json",
        "--output-format",
        "stream-json",
        "--verbose",
        "--include-partial-messages",
    ];
    let args = common.iter().chain(rest.iter()).map(|arg| arg.to_string()).collect();
    Action::Spawn { gen, args }
}

fn status(text: &str) -> Action {
    Action::Status(text.to_string())
}

fn send(text: &str) -> Action {
    Action::Send(user_line(text))
}

fn message(who: Who, text: &str) -> Message {
    Message { who, text: text.to_string() }
}

fn last(tab: &Tab) -> (Who, &str) {
    let message = tab.msgs.last().unwrap();
    (message.who, message.text.as_str())
}

#[test]
fn a_new_tab() {
    let tab = new_tab();
    assert_eq!(tab.names, names());
    assert!(tab.msgs.is_empty() && tab.stream.is_empty());
    assert_eq!(tab.gen, 0);
    assert!(!tab.render_pending);
    assert_eq!(tab.sess.workdir, None);
    assert_eq!(RENDER_DELAY_MS, 150);
}

#[test]
fn choosing_a_folder_starts_over() {
    let mut tab = running_tab();
    tab.stream = "half".to_string();
    tab.submit("/model opus", 0);
    let actions = tab.choose_folder("/other", 1);
    assert_eq!(
        actions,
        vec![
            Action::Kill,
            Action::Folder("/other".to_string()),
            Action::Inputs(true),
            Action::Approve(false),
            Action::Render,
            spawn(3, &["--permission-mode", "plan"]),
        ],
    );
    assert_eq!(tab.sess.workdir.as_deref(), Some("/other"));
    assert_eq!(tab.sess.session_id, None);
    assert!(tab.sess.overrides.is_empty());
    assert_eq!(tab.stream, "");
    assert_eq!(
        tab.msgs,
        vec![message(Who::System, "Folder set. Persistent session started; streaming on.")],
    );
}

#[test]
fn a_launch_that_fails_is_told() {
    let mut tab = new_tab();
    tab.choose_folder("/work", 0);
    assert_eq!(tab.launched(Some("no such file")), vec![Action::Render]);
    assert_eq!(last(&tab), (Who::System, "Failed to launch helper: no such file"));
    assert!(!tab.sess.running);
}

#[test]
fn nothing_is_launched_without_a_folder() {
    let mut tab = new_tab();
    let mut actions = vec![];
    tab.spawn_proc(&mut actions, 1, true);
    assert_eq!(actions, vec![]);
    assert_eq!(tab.gen, 0);
    assert_eq!(tab.change_mode(2), vec![]);
    assert!(tab.msgs.is_empty());
    for line in ["/clear", "/model x", "/permission-mode plan"] {
        assert_eq!(tab.submit(line, 0), vec![Action::Render, Action::ClearEntry]);
        assert_eq!(last(&tab), (Who::System, "Choose a folder first."));
    }
    assert!(tab.sess.overrides.is_empty());
}

#[test]
fn blank_lines_do_nothing() {
    let mut tab = running_tab();
    for text in ["", "  ", "\n\t"] {
        assert_eq!(tab.submit(text, 0), vec![]);
    }
    assert_eq!(tab.msgs.len(), 1);
}

#[test]
fn a_message_is_sent_as_it_stands() {
    let mut tab = running_tab();
    assert_eq!(
        tab.submit(" hi\nthere ", 0),
        vec![Action::ClearEntry, Action::Render, send(" hi\nthere ")],
    );
    assert_eq!(last(&tab), (Who::You, " hi\nthere "));
    assert_eq!(
        tab.sent(true),
        vec![status("⏳ working…"), Action::Inputs(false), Action::Approve(false)],
    );
}

#[test]
fn without_a_program_nothing_is_sent() {
    let mut tab = new_tab();
    assert_eq!(tab.submit("hi", 0), vec![Action::Render]);
    assert_eq!(last(&tab), (Who::System, "No running session. Choose a folder first."));
    assert_eq!(tab.sent(false), vec![Action::Render]);
    assert_eq!(
        last(&tab),
        (Who::System, "Error: session process not running. Re-choose the folder."),
    );
}

#[test]
fn unknown_commands_are_messages() {
    let mut tab = running_tab();
    for text in ["/cost", "  /my-command x ", "/Model y", "/"] {
        assert_eq!(
            tab.submit(text, 0),
            vec![Action::ClearEntry, Action::Render, send(text)],
        );
        assert_eq!(last(&tab), (Who::You, text));
    }
    assert_eq!(tab.handle_command("/cost now", 0), None);
    assert_eq!(tab.handle_command("", 0), None);
}

#[test]
fn local_commands_are_answered() {
    let mut tab = new_tab();
    assert_eq!(tab.submit("/help", 0), vec![Action::Render, Action::ClearEntry]);
    assert_eq!(last(&tab), (Who::System, cmd_help_text("Helper").as_str()));
    let mut tab = running_tab();
    let expected = tab.sess.status_text(1);
    assert_eq!(tab.submit(" /status now ", 1), vec![Action::Render, Action::ClearEntry]);
    assert_eq!(last(&tab), (Who::System, expected.as_str()));
    assert_eq!(tab.gen, 1);
}

#[test]
fn a_flag_command_without_an_argument_tells_the_value() {
    let mut tab = running_tab();
    assert_eq!(tab.submit("/model", 0), vec![Action::Render, Action::ClearEntry]);
    assert_eq!(
        last(&tab),
        (Who::System, "/model: current = m1\nUsage: /model [alias|full-id]"),
    );
    tab.submit("/permission-mode  ", 0);
    assert_eq!(
        last(&tab),
        (
            Who::System,
            "/permission-mode: current = (CLI default)\nUsage: /permission-mode <mode>",
        ),
    );
    tab.submit("/permission-mode plan", 0);
    tab.submit("/permission-mode", 0);
    assert_eq!(
        last(&tab),
        (Who::System, "/permission-mode: current = plan\nUsage: /permission-mode <mode>"),
    );
}

#[test]
fn a_flag_command_relaunches_into_the_session() {
    let mut tab = running_tab();
    assert_eq!(
        tab.submit("/model  opus 4 ", 0),
        vec![
            Action::Render,
            spawn(2, &["--resume", "s1", "--model", "opus 4"]),
            Action::ClearEntry,
        ],
    );
    assert_eq!(last(&tab), (Who::System, "/model → opus 4 (restarting session; context kept)"));
    assert!(tab.sess.cmd_pending && !tab.sess.running);
    assert_eq!(
        tab.submit("/permission-mode auto", 1),
        vec![
            Action::Render,
            spawn(
                3,
                &["--resume", "s1", "--permission-mode", "auto", "--model", "opus 4"],
            ),
            Action::ClearEntry,
        ],
    );
}

#[test]
fn a_rejected_command_is_undone() {
    let mut tab = running_tab();
    tab.submit("/model good", 0);
    tab.launched(None);
    tab.report(2, init(None, None), "", 0);
    tab.submit("/model bad", 0);
    tab.launched(None);
    let (actions, go_on) = tab.report(3, ended(), " error: bad model\n", 1);
    assert_eq!(
        actions,
        vec![
            Action::Render,
            spawn(4, &["--resume", "s1", "--permission-mode", "plan", "--model", "good"]),
        ],
    );
    assert!(!go_on);
    assert_eq!(
        last(&tab),
        (
            Who::System,
            "Command rejected by the CLI — reverting to the previous config and continuing:\n\
             error: bad model",
        ),
    );
    assert_eq!(tab.sess.session_id.as_deref(), Some("s1"));
    assert!(!tab.sess.cmd_pending && tab.sess.cmd_recovering);

    // The recovery fails as well.
    tab.launched(None);
    let (actions, go_on) = tab.report(4, ended(), "", 1);
    assert_eq!(actions, vec![Action::Render, status(""), Action::Inputs(false)]);
    assert!(!go_on);
    assert_eq!(
        last(&tab),
        (Who::System, "(session process ended: stream closed (recovery also failed))"),
    );
}

#[test]
fn a_rejection_without_a_log() {
    let mut tab = running_tab();
    tab.submit("/model bad", 0);
    let (actions, _) = tab.report(2, ended(), " \n", 0);
    assert_eq!(actions, vec![Action::Render, spawn(3, &["--resume", "s1"])]);
    assert_eq!(
        last(&tab),
        (
            Who::System,
            "Command rejected by the CLI — reverting to the previous config and continuing:\n\
             the process exited immediately",
        ),
    );
}

#[test]
fn each_rejection_is_undone() {
    let mut tab = running_tab();
    for round in 0..3u64 {
        tab.submit("/model bad", 0);
        let (actions, _) = tab.report(2 + 2 * round, ended(), "", 0);
        assert_eq!(actions, vec![Action::Render, spawn(3 + 2 * round, &["--resume", "s1"])]);
    }
}

#[test]
fn an_accepted_command_stays() {
    for confirm in [true, false] {
        let mut tab = running_tab();
        tab.submit("/model opus", 0);
        tab.launched(None);
        if confirm {
            tab.report(2, init(Some("m2"), None), "", 0);
        } else {
            tab.report(2, Ev::Turn(turn("ok", &[], &[])), "", 0);
        }
        assert!(!tab.sess.cmd_pending);
        assert_eq!(tab.sess.good_overrides, tab.sess.overrides);
        let (actions, _) = tab.report(2, ended(), "gone\n", 0);
        assert_eq!(actions, vec![Action::Render, status(""), Action::Inputs(false)]);
        assert_eq!(last(&tab), (Who::System, "(session process ended: stream closed)\ngone"));
        assert_eq!(tab.sess.overrides.len(), 1);
    }
}

#[test]
fn a_rejection_behind_a_clearing_is_undone() {
    let mut tab = running_tab();
    tab.submit("/model bad", 0);
    assert_eq!(tab.submit("/clear", 0)[2], spawn(3, &["--model", "bad"]));
    assert!(tab.sess.cmd_pending && !tab.sess.cmd_recovering);
    assert_eq!(tab.sess.session_id, None);
    tab.launched(None);
    let (actions, go_on) = tab.report(3, ended(), "error: bad model\n", 0);
    assert_eq!(actions, vec![Action::Render, spawn(4, &["--resume", "s1"])]);
    assert!(!go_on);
    assert_eq!(tab.sess.session_id.as_deref(), Some("s1"));
    assert!(tab.sess.overrides.is_empty());
    assert_eq!(
        last(&tab),
        (
            Who::System,
            "Command rejected by the CLI — reverting to the previous config and continuing:\n\
             error: bad model",
        ),
    );
    assert_eq!(tab.msgs.len(), 2);

    // Once is enough.
    let (actions, _) = tab.report(4, ended(), "", 0);
    assert_eq!(actions, vec![Action::Render, status(""), Action::Inputs(false)]);
}

#[test]
fn a_rejected_clearing_keeps_the_session() {
    let mut tab = running_tab();
    tab.submit("/model opus", 0);
    tab.report(2, init(None, None), "", 0);
    tab.submit("/clear", 0);
    let (actions, _) = tab.report(3, ended(), "", 0);
    assert_eq!(
        actions,
        vec![Action::Render, spawn(4, &["--resume", "s1", "--model", "opus"])],
    );
    assert_eq!(tab.sess.session_id.as_deref(), Some("s1"));
}

#[test]
fn a_clearing_that_comes_up_drops_the_session() {
    let mut tab = running_tab();
    tab.submit("/clear", 0);
    tab.launched(None);
    tab.report(2, init(None, Some("s2")), "", 0);
    let (actions, _) = tab.report(2, ended(), "", 0);
    assert_eq!(actions, vec![Action::Render, status(""), Action::Inputs(false)]);
    assert_eq!(tab.sess.session_id.as_deref(), Some("s2"));
    assert_eq!(tab.change_mode(0)[1], spawn(3, &["--resume", "s2"]));
}

#[test]
fn the_usual_names() {
    let Names { label, program } = Names::usual();
    assert_eq!(format!("{}_BIN", program.to_uppercase()), BIN_VAR);
    assert_eq!(program, program.to_lowercase());
    assert_eq!(label, format!("{}{}", &BIN_VAR[..1], &program[1..]));

    let mut tab = Tab::new(Names::usual());
    tab.choose_folder("/work", 0);
    tab.launched(Some("no such file"));
    assert_eq!(
        last(&tab),
        (Who::System, format!("Failed to launch {}: no such file", program).as_str()),
    );
    tab.report(1, Ev::Turn(turn("hm", &["Bash: ls"], &[])), "", 0);
    assert!(last(&tab).1.starts_with(&format!("{} needs permission for:\n  Bash: ls\n", label)));
    assert!(tab.render().contains(&format!(
        "<div class=\"msg {}\"><div class=\"who\">{}</div><p>hm</p>\n</div>",
        program, label
    )));
    tab.report(1, Ev::Ended(STREAM_CLOSED.to_string()), "", 0);
    assert_eq!(last(&tab), (Who::System, "(session process ended: stream closed)"));
}

#[test]
fn a_clearing_that_comes_up_confirms_the_flags() {
    let mut tab = running_tab();
    tab.submit("/model opus", 0);
    tab.submit("/clear", 0);
    tab.launched(None);
    tab.report(3, init(Some("m2"), Some("s2")), "", 0);
    assert_eq!(tab.sess.good_overrides, vec![("--model".to_string(), "opus".to_string())]);
    tab.submit("/permission-mode bad", 0);
    let (actions, _) = tab.report(4, ended(), "", 0);
    assert_eq!(
        actions,
        vec![Action::Render, spawn(5, &["--resume", "s2", "--model", "opus"])],
    );
}

#[test]
fn clearing_starts_a_fresh_session() {
    let mut tab = running_tab();
    tab.report(1, Ev::Turn(turn("x", &["Write -> /etc/x"], &["/etc"])), "", 0);
    tab.approve(0);
    tab.submit("/model opus", 0);
    assert_eq!(
        tab.submit("/clear", 1),
        vec![
            Action::Approve(false),
            Action::Render,
            spawn(
                4,
                &["--permission-mode", "plan", "--add-dir", "/etc", "--model", "opus"],
            ),
            Action::ClearEntry,
        ],
    );
    assert_eq!(
        tab.msgs,
        vec![message(Who::System, "Cleared — fresh session (previous context dropped).")],
    );
    assert_eq!(tab.sess.session_id, None);
}

#[test]
fn a_mode_change_relaunches_into_the_session() {
    let mut tab = running_tab();
    assert_eq!(
        tab.change_mode(3),
        vec![Action::Render, spawn(2, &["--resume", "s1", "--permission-mode", "auto"])],
    );
    assert_eq!(
        last(&tab),
        (Who::System, "Mode changed — restarting session (context kept)."),
    );
}

#[test]
fn earlier_programs_are_not_heard() {
    let mut tab = running_tab();
    tab.change_mode(0);
    let events = [
        ended(),
        Ev::Thinking,
        Ev::Delta("x".to_string()),
        Ev::Tool("x".to_string()),
        init(Some("m9"), Some("s9")),
        Ev::Turn(turn("x", &["y"], &[])),
    ];
    let count = tab.msgs.len();
    for ev in events {
        assert_eq!(tab.report(1, ev, "log", 0), (vec![], false));
    }
    assert_eq!(tab.msgs.len(), count);
    assert_eq!(tab.stream, "");
    assert_eq!(tab.sess.session_id.as_deref(), Some("s1"));
    assert!(!tab.sess.pending_approval);
}

#[test]
fn generations_wrap_around() {
    let mut tab = running_tab();
    tab.gen = u64::MAX;
    assert_eq!(tab.change_mode(0)[1], spawn(0, &["--resume", "s1"]));
    assert_eq!(tab.gen, 0);
}

#[test]
fn an_init_is_kept() {
    let mut tab = running_tab();
    assert_eq!(tab.report(1, init(None, Some("s2")), "", 0), (vec![], true));
    assert_eq!(tab.sess.model.as_deref(), Some("m1"));
    assert_eq!(tab.sess.session_id.as_deref(), Some("s2"));
    tab.report(1, init(Some("m2"), None), "", 0);
    assert_eq!(tab.sess.model.as_deref(), Some("m2"));
    assert_eq!(tab.sess.session_id.as_deref(), Some("s2"));
}

#[test]
fn a_reply_streams_in() {
    let mut tab = running_tab();
    assert_eq!(
        tab.report(1, Ev::Delta("ab".to_string()), "", 0),
        (vec![Action::ScheduleRender], true),
    );
    assert_eq!(tab.report(1, Ev::Delta("cd".to_string()), "", 0), (vec![], true));
    assert_eq!(tab.stream, "abcd");
    assert!(tab.render().contains("abcd"));
    assert_eq!(tab.render_due(), vec![Action::Render]);
    assert_eq!(
        tab.report(1, Ev::Delta("e".to_string()), "", 0),
        (vec![Action::ScheduleRender], true),
    );
    assert_eq!(tab.stream, "abcde");
    let (actions, go_on) = tab.report(1, Ev::Turn(turn("abcde!", &[], &[])), "", 0);
    assert_eq!(actions, vec![Action::Render, status(""), Action::Inputs(true)]);
    assert!(go_on);
    assert_eq!(tab.stream, "");
    assert_eq!(last(&tab), (Who::Assistant, "abcde!"));
    assert_eq!(tab.sess.last_usage.unwrap().output, 4);
}

#[test]
fn showing_later_is_asked_once() {
    let mut tab = new_tab();
    let mut actions = vec![];
    tab.schedule_render(&mut actions);
    tab.schedule_render(&mut actions);
    assert_eq!(actions, vec![Action::ScheduleRender]);
}

#[test]
fn tools_and_thinking_are_shown() {
    let mut tab = running_tab();
    assert_eq!(
        tab.report(1, Ev::Tool("🔧 Bash: ls".to_string()), "", 0),
        (vec![status("🔧 working…"), Action::Render], true),
    );
    assert_eq!(last(&tab), (Who::Tool, "🔧 Bash: ls"));
    assert_eq!(tab.report(1, Ev::Thinking, "", 0), (vec![status("💭 thinking…")], true));
}

#[test]
fn refusals_await_approval() {
    let mut tab = running_tab();
    let refused = turn("need it", &["Write -> /etc/a", "Bash: rm x"], &["/etc", "/var"]);
    let (actions, _) = tab.report(1, Ev::Turn(refused), "", 0);
    assert_eq!(
        actions,
        vec![
            Action::Render,
            Action::Render,
            Action::Approve(true),
            status(""),
            Action::Inputs(true),
        ],
    );
    assert_eq!(
        last(&tab),
        (
            Who::System,
            "Helper needs permission for:\n  Write -> /etc/a\n  Bash: rm x\n\
             >>> Click [Approve] to allow and continue. Typing does NOT grant it. <<<",
        ),
    );
    assert!(tab.sess.pending_approval);

    // Typing does not grant it.
    tab.submit("yes, go on", 0);
    assert!(tab.sess.allowed_dirs.is_empty());

    assert_eq!(
        tab.approve(1),
        vec![
            Action::Render,
            spawn(
                2,
                &[
                    "--resume", "s1", "--permission-mode", "acceptEdits", "--add-dir", "/etc",
                    "--add-dir", "/var",
                ],
            ),
            send("Approved. Proceed with the action you described."),
        ],
    );
    assert_eq!(
        last(&tab),
        (Who::You, "[Approved — restarting session with access, continuing]"),
    );
    assert_eq!(tab.approve(1), vec![]);

    // A folder that is open already is not opened again.
    tab.launched(None);
    tab.report(2, Ev::Turn(turn("more", &["x"], &["/var", "/opt"])), "", 0);
    tab.approve(0);
    assert_eq!(tab.sess.allowed_dirs, ["/etc", "/var", "/opt"]);
    assert!(tab.sess.pending_dirs.is_empty());
}

#[test]
fn a_turn_without_refusals_awaits_nothing() {
    let mut tab = running_tab();
    tab.report(1, Ev::Turn(turn("a", &["x"], &["/etc"])), "", 0);
    tab.report(1, Ev::Turn(turn("b", &[], &[])), "", 0);
    assert!(!tab.sess.pending_approval);
    assert_eq!(tab.approve(0), vec![]);
    assert!(tab.sess.allowed_dirs.is_empty());
}

#[test]
fn a_turn_may_move_to_another_session() {
    let mut tab = running_tab();
    let mut moved = turn("a", &[], &[]);
    moved.session_id = Some("s7".to_string());
    tab.report(1, Ev::Turn(moved), "", 0);
    assert_eq!(tab.sess.session_id.as_deref(), Some("s7"));
}

#[test]
fn pasting_needs_a_running_program() {
    let mut tab = new_tab();
    assert_eq!(tab.paste_image(), vec![Action::Render]);
    assert_eq!(last(&tab), (Who::System, "Choose a folder first."));
    tab.choose_folder("/work", 0);
    assert_eq!(tab.paste_image(), vec![Action::Render]);
    assert_eq!(last(&tab), (Who::System, "No running session."));
    tab.launched(None);
    assert_eq!(tab.paste_image(), vec![Action::ReadClipboard]);
}

#[test]
fn a_pasted_image_is_pointed_at() {
    let mut tab = running_tab();
    let file = paste_name(1700000000123);
    assert_eq!(file, ".ccgui-paste-1700000000123.png");
    assert_eq!(paste_name(0), ".ccgui-paste-0.png");
    let path = format!("/work/{}", file);
    assert_eq!(
        tab.pasted(&file, &path, "what is this?"),
        vec![
            Action::ClearEntry,
            Action::Render,
            send(&format!(
                "我粘贴了一张图片，请先用 Read 工具查看这个文件，再回答：\n{}\nwhat is this?",
                path
            )),
        ],
    );
    assert_eq!(
        last(&tab),
        (Who::You, "[pasted image: .ccgui-paste-1700000000123.png] what is this?"),
    );
}

#[test]
fn failed_pastes_are_told() {
    let mut tab = running_tab();
    for (error, text) in [
        (PasteError::Empty, "Clipboard has no image."),
        (PasteError::Unreadable("gone".to_string()), "Clipboard read failed: gone"),
        (PasteError::Unsaved("disk full".to_string()), "Failed to save pasted image: disk full"),
    ] {
        assert_eq!(tab.not_pasted(error), vec![Action::Render]);
        assert_eq!(last(&tab), (Who::System, text));
    }
}

#[test]
fn messages_are_shown_in_order() {
    let mut tab = running_tab();
    let mut actions = vec![];
    tab.push_msg(&mut actions, Who::You, "first");
    tab.push_msg(&mut actions, Who::Assistant, "second");
    assert_eq!(actions, vec![Action::Render, Action::Render]);
    let html = tab.render();
    assert!(html.find("<pre>first</pre>").unwrap() < html.find("<p>second</p>").unwrap());
    let mut actions = vec![Action::Kill];
    tab.send_turn(&mut actions, "x");
    assert_eq!(actions, vec![Action::Kill, send("x")]);
}
