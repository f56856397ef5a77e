use ccgui::errlog::{log_line, message, ERR_LIMIT};

#[test]
fn short_logs_are_kept_whole() {
    let mut log = String::new();
    for line in ["one", "", "zwei ä"] {
        log_line(&mut log, line);
    }
    assert_eq!(log, "one\n\nzwei ä\n");
}

#[test]
fn of_a_long_log_the_end_is_kept() {
    let mut log = String::new();
    let mut whole = String::new();
    for i in 0..1000 {
        let line = format!("line {}", i);
        whole.push_str(&line);
        whole.push('\n');
        log_line(&mut log, &line);
        assert!(log.len() <= ERR_LIMIT);
        assert!(whole.ends_with(&log));
    }
    assert_eq!(log, whole[whole.len() - 2048..]);
}

#[test]
fn the_limit_counts_bytes() {
    let mut log = String::new();
    log_line(&mut log, &"x".repeat(2047));
    assert_eq!(log.len(), 2048);
    log_line(&mut log, "y");
    assert_eq!(log, format!("{}\ny\n", "x".repeat(2045)));
}

#[test]
fn no_character_is_cut() {
    let mut log = String::new();
    log_line(&mut log, &"é".repeat(1024));
    assert_eq!(log, format!("{}\n", "é".repeat(1023)));
    let mut log = String::new();
    log_line(&mut log, &"é".repeat(1025));
    assert_eq!(log, format!("{}\n", "é".repeat(1023)));
    assert_eq!(message(&log), Some("é".repeat(1023)));
    let mut log = String::new();
    log_line(&mut log, &format!("{}x", "é".repeat(1024)));
    assert_eq!(log, format!("{}x\n", "é".repeat(1023)));
}

#[test]
fn the_longest_end_that_fits_is_kept() {
    for c in ['x', 'é', '日', '🔧'] {
        for n in 500..2100usize {
            let mut log = String::new();
            let line = c.to_string().repeat(n);
            log_line(&mut log, &line);
            let kept = n.min((ERR_LIMIT - 1) / c.len_utf8());
            assert_eq!(log, format!("{}\n", c.to_string().repeat(kept)));
        }
    }
}

#[test]
fn what_a_log_says() {
    assert_eq!(message(""), None);
    assert_eq!(message(" \n\n"), None);
    assert_eq!(message("\n error: bad model\n see above \n").as_deref(), Some("error: bad model\n see above"));
}
