use ccgui::session::{
    copy_flags, find_flag, mode_flag, mode_label, set_override, Session, MODE_COUNT,
};
use ccgui::wire::Usage;

const COMMON: [&str; 7] = [
    "-p",
    "--input-format",
    "stream-json",
    "--output-format",
    "stream-json",
    "--verbose",
    "--include-partial-messages",
];

fn args(rest: &[&str]) -> Vec<String> {
    COMMON.iter().chain(rest.iter()).map(|arg| arg.to_string()).collect()
}

fn pairs(flags: &[(&str, &str)]) -> Vec<(String, String)> {
    flags.iter().map(|(flag, value)| (flag.to_string(), value.to_string())).collect()
}

fn session() -> Session {
    Session::new(Some("/work".to_string()))
}

#[test]
fn the_mode_list() {
    assert_eq!(MODE_COUNT, 4);
    let labels: Vec<&str> = (0..MODE_COUNT).map(mode_label).collect();
    assert_eq!(labels, ["Ask (default)", "Plan", "Accept edits", "Auto"]);
    assert_eq!(mode_label(4), "?");
    let flags: Vec<Option<&str>> = (0..MODE_COUNT).map(mode_flag).collect();
    assert_eq!(flags, [None, Some("plan"), Some("acceptEdits"), Some("auto")]);
    assert_eq!(mode_flag(4), None);
    assert_eq!(mode_flag(u32::MAX), None);
}

#[test]
fn a_new_session() {
    let session = session();
    assert_eq!(session.workdir.as_deref(), Some("/work"));
    assert_eq!(session.session_id, None);
    assert!(!session.running && !session.pending_approval);
    assert!(!session.cmd_pending && !session.cmd_recovering);
    assert!(session.overrides.is_empty() && session.good_overrides.is_empty());
    assert!(session.allowed_dirs.is_empty() && session.pending_dirs.is_empty());
    assert_eq!(session.model, None);
    assert_eq!(session.last_usage, None);
    assert_eq!(Session::new(None).workdir, None);
}

#[test]
fn a_flag_set_again_is_replaced() {
    let mut s = session();
    set_override(&mut s, "--model", "a");
    set_override(&mut s, "--effort", "b");
    set_override(&mut s, "--model", "c d");
    assert_eq!(s.overrides, pairs(&[("--effort", "b"), ("--model", "c d")]));
    assert_eq!(find_flag(&s.overrides, "--model").as_deref(), Some("c d"));
    assert_eq!(find_flag(&s.overrides, "--effort").as_deref(), Some("b"));
    assert_eq!(find_flag(&s.overrides, "--other"), None);
    assert_eq!(copy_flags(&s.overrides), s.overrides);
    assert!(s.good_overrides.is_empty());
}

#[test]
fn a_first_launch() {
    assert_eq!(session().launch_args(0, false), args(&[]));
    assert_eq!(session().launch_args(1, false), args(&["--permission-mode", "plan"]));
    assert_eq!(session().launch_args(9, false), args(&[]));
}

#[test]
fn a_full_launch() {
    let mut s = session();
    s.session_id = Some("s1".to_string());
    s.allowed_dirs = vec!["/etc".to_string(), "/var log".to_string()];
    set_override(&mut s, "--permission-mode", "dontAsk");
    set_override(&mut s, "--model", "opus");
    assert_eq!(
        s.launch_args(3, false),
        args(&[
            "--resume", "s1", "--permission-mode", "dontAsk", "--add-dir", "/etc", "--add-dir",
            "/var log", "--model", "opus",
        ]),
    );
    assert_eq!(
        s.launch_args(3, true),
        args(&[
            "--resume", "s1", "--permission-mode", "acceptEdits", "--add-dir", "/etc", "--add-dir",
            "/var log", "--model", "opus",
        ]),
    );
}

#[test]
fn the_status_of_a_new_session() {
    assert_eq!(
        session().status_text(0),
        "Status · model: (unknown — send a message first) · session: (none yet) · \
         permission-mode: Ask (default) · overrides: (none) · last turn — (no usage yet)",
    );
    assert!(session().status_text(7).contains("permission-mode: ? "));
}

#[test]
fn the_status_of_a_session() {
    let mut s = session();
    s.model = Some("m".to_string());
    s.session_id = Some("s1".to_string());
    set_override(&mut s, "--model", "opus");
    set_override(&mut s, "--permission-mode", "plan");
    s.last_usage = Some(Usage { input: 10, cache_create: 20, cache_read: 30, output: 40 });
    assert_eq!(
        s.status_text(2),
        "Status · model: m · session: s1 · permission-mode: plan · overrides: --model opus  \
         --permission-mode plan · last turn — input 10 (cache: 30 read / 20 created), output 40 \
         (no context-window size in the stream-json protocol → no % shown)",
    );
}

#[test]
fn the_status_is_one_line() {
    let mut s = session();
    s.model = Some("m\nn".to_string());
    set_override(&mut s, "--model", "a\nb");
    let text = s.status_text(0);
    assert!(!text.contains('\n'));
    assert!(text.contains("model: m n · "));
    assert!(text.contains("overrides: --model a b · "));
}
