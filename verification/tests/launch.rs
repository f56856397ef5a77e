use ccgui::launch::{claude_candidates, resolve_claude};

fn resolve(asked: Option<&str>, present: [bool; 4]) -> String {
    resolve_claude(asked, "/home/me", "helper", &present.to_vec())
}

#[test]
fn the_places_in_order() {
    assert_eq!(
        claude_candidates("/home/me", "helper"),
        [
            "/home/me/.local/bin/helper",
            "/usr/local/bin/helper",
            "/usr/bin/helper",
            "/home/me/.npm-global/bin/helper",
        ],
    );
    assert_eq!(claude_candidates("", "helper")[0], "/.local/bin/helper");
}

#[test]
fn what_is_asked_for_comes_first() {
    assert_eq!(resolve(Some("/opt/other"), [true; 4]), "/opt/other");
    assert_eq!(resolve(Some(""), [true; 4]), "/home/me/.local/bin/helper");
}

#[test]
fn the_first_that_is_there() {
    assert_eq!(resolve(None, [true, true, true, true]), "/home/me/.local/bin/helper");
    assert_eq!(resolve(None, [false, true, true, true]), "/usr/local/bin/helper");
    assert_eq!(resolve(None, [false, false, true, true]), "/usr/bin/helper");
    assert_eq!(resolve(None, [false, false, false, true]), "/home/me/.npm-global/bin/helper");
    assert_eq!(resolve(None, [false; 4]), "helper");
    assert_eq!(resolve_claude(None, "/home/me", "helper", &vec![]), "helper");
}
