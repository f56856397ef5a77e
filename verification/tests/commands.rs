use ccgui::commands::{cmd_help_text, commands, lookup_cmd, Local, Route};

#[test]
fn the_table() {
    let names: Vec<&str> = commands().iter().map(|row| row.name).collect();
    assert_eq!(names, ["/model", "/permission-mode", "/clear", "/status", "/help"]);
}

#[test]
fn every_command_is_found() {
    for row in commands() {
        assert_eq!(lookup_cmd(row.name), Some(row));
    }
    assert_eq!(lookup_cmd("/model").unwrap().route, Route::RespawnFlag("--model"));
    assert_eq!(
        lookup_cmd("/permission-mode").unwrap().route,
        Route::RespawnFlag("--permission-mode"),
    );
    assert_eq!(lookup_cmd("/clear").unwrap().route, Route::Clear);
    assert_eq!(lookup_cmd("/status").unwrap().route, Route::Local(Local::Status));
    assert_eq!(lookup_cmd("/help").unwrap().route, Route::Local(Local::Help));
}

#[test]
fn nothing_else_is_found() {
    for name in ["", "/", "/models", "/Model", "model", "/cost", "/context"] {
        assert_eq!(lookup_cmd(name), None, "{:?}", name);
    }
}

#[test]
fn the_help_text() {
    assert_eq!(
        cmd_help_text("Helper"),
        "Commands — anything else starting with / is sent to Helper verbatim:\n\
         \u{20} /model [alias|full-id] switch model (no arg: show current); value passed to the \
         CLI as-is\n\
         \u{20} /permission-mode <mode> set permission mode (overrides the dropdown); CLI \
         validates\n\
         \u{20} /clear                 start a fresh session (conversation context dropped)\n\
         \u{20} /status                show model / session id / permission-mode / last-turn \
         tokens\n\
         \u{20} /help                  list these commands\n\
         \nThe GUI does not validate values — the CLI does. /context and /cost are intentionally \
         not provided (see DESIGN.md).",
    );
}

#[test]
fn the_help_text_shows_every_row() {
    let text = cmd_help_text("Helper");
    for row in commands() {
        assert!(text.contains(&format!("  {:<22} {}\n", row.usage, row.help)));
    }
}
