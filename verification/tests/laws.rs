use ccgui::names::Names;
use ccgui::tab::{Action, Tab};
use ccgui::wire::{user_line, Ev, TurnResult, Usage};

fn new_tab() -> Tab {
    Tab::new(Names { label: "Helper".to_string(), program: "helper".to_string() })
}

fn ended() -> Ev {
    Ev::Ended("stream closed".to_string())
}

fn init() -> Ev {
    Ev::Init { model: Some("m".to_string()), session_id: Some("s".to_string()) }
}

fn refused(dirs: &[&str]) -> Ev {
    Ev::Turn(TurnResult {
        result: "no".to_string(),
        session_id: None,
        usage: Usage { input: 0, cache_create: 0, cache_read: 0, output: 0 },
        denials: vec!["Write".to_string()],
        denied_dirs: dirs.iter().map(|dir| dir.to_string()).collect(),
    })
}

fn launches(actions: &[Action]) -> usize {
    actions.iter().filter(|action| matches!(action, Action::Spawn { .. })).count()
}

#[test]
fn a_superseded_program_stays_so() {
    let mut tab = new_tab();
    tab.choose_folder("/work", 0);
    for round in 1..20u64 {
        assert_eq!(launches(&tab.change_mode((round % 4) as u32)), 1);
        for earlier in 0..=round {
            assert_eq!(tab.report(earlier, ended(), "", 0), (vec![], false));
            assert_eq!(tab.report(earlier, init(), "", 0), (vec![], false));
        }
    }
    assert_eq!(tab.report(tab.gen, init(), "", 0), (vec![], true));
}

#[test]
fn flags_and_folders_stand_once() {
    let mut tab = new_tab();
    tab.choose_folder("/work", 0);
    for round in 0..6 {
        tab.submit(&format!("/model m{}", round), 0);
        tab.submit(&format!("/permission-mode p{}", round), 0);
        tab.report(tab.gen, refused(&["/a", "/b"]), "", 0);
        tab.approve(0);
        tab.report(tab.gen, refused(&["/b", "/c"]), "", 0);
        tab.approve(0);
    }
    assert_eq!(tab.sess.allowed_dirs, ["/a", "/b", "/c"]);
    let flags: Vec<&str> = tab.sess.overrides.iter().map(|pair| pair.0.as_str()).collect();
    assert_eq!(flags, ["--model", "--permission-mode"]);
    let args = tab.sess.launch_args(1, false);
    assert_eq!(args.iter().filter(|arg| *arg == "--permission-mode").count(), 1);
    assert!(args.ends_with(&["--model".to_string(), "m5".to_string()]));
}

#[test]
fn flags_are_settled_unless_a_command_is_under_way() {
    let mut tab = new_tab();
    tab.choose_folder("/work", 0);
    tab.launched(None);
    tab.report(1, init(), "", 0);
    for (value, good) in [("a", true), ("b", false), ("c", true), ("d", false)] {
        tab.submit(&format!("/model {}", value), 0);
        assert!(tab.sess.cmd_pending);
        tab.launched(None);
        if good {
            tab.report(tab.gen, init(), "", 0);
        } else {
            tab.report(tab.gen, ended(), "", 0);
        }
        assert!(!tab.sess.cmd_pending);
        assert_eq!(tab.sess.overrides, tab.sess.good_overrides);
    }
    assert_eq!(tab.sess.overrides, vec![("--model".to_string(), "c".to_string())]);
}

#[test]
fn different_messages_are_different_lines() {
    let messages = ["", " ", "a", "a\n", "a\\n", "\"a\"", "A"];
    for (i, a) in messages.iter().enumerate() {
        for b in &messages[i + 1..] {
            assert_ne!(user_line(a), user_line(b));
        }
    }
}

#[test]
fn every_sent_line_is_one_line() {
    let mut tab = new_tab();
    tab.choose_folder("/work", 0);
    tab.launched(None);
    let mut actions = tab.submit("a\nb\r\nc", 0);
    actions.extend(tab.submit("/unknown\nx", 0));
    actions.extend(tab.pasted("f\n.png", "/work/f\n.png", "q\n"));
    tab.report(1, refused(&[]), "", 0);
    actions.extend(tab.approve(0));
    let mut count = 0;
    for action in actions {
        if let Action::Send(line) = action {
            assert!(!line.contains('\n'));
            count += 1;
        }
    }
    assert_eq!(count, 4);
}

#[test]
fn every_message_is_shown() {
    let mut tab = new_tab();
    let mut steps: Vec<(usize, Vec<Action>)> = vec![];
    let mut count = 0;
    for step in 0..9 {
        let actions = match step {
            0 => tab.submit("hi", 0),
            1 => tab.choose_folder("/work", 0),
            2 => tab.launched(Some("no")),
            3 => tab.submit("/clear", 0),
            4 => tab.submit("/status", 0),
            5 => tab.change_mode(1),
            6 => tab.report(tab.gen, refused(&["/a"]), "", 0).0,
            7 => tab.approve(0),
            _ => tab.report(tab.gen, ended(), "", 0).0,
        };
        if tab.msgs.len() != count || step == 3 {
            steps.push((step, actions));
        }
        count = tab.msgs.len();
    }
    assert!(steps.len() >= 7);
    for (step, actions) in steps {
        assert!(actions.contains(&Action::Render), "{}", step);
    }
}
