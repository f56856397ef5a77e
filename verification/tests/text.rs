use ccgui::text::{
    add_text, begins_with, chars_of, decimal, digest, holds, is_space, join, one_line, pad, same,
    split_word, text_of, trim,
};

fn texts(parts: &[&str]) -> Vec<String> {
    parts.iter().map(|part| part.to_string()).collect()
}

#[test]
fn white_space_is_what_std_says() {
    for code in 0..=0x10ffffu32 {
        if let Some(c) = char::from_u32(code) {
            assert_eq!(is_space(c), c.is_whitespace(), "{:x}", code);
        }
    }
}

#[test]
fn trimming_agrees_with_std() {
    for text in [
        "", " ", "\n\t ", "a", " a", "a ", " a b ", "\u{3000}x y\u{2029}", "\u{200b}x\u{200b}",
        "/model opus\n", "é ",
    ] {
        assert_eq!(trim(text), text.trim(), "{:?}", text);
        assert_eq!(begins_with(text, '/'), text.trim_start().starts_with('/'), "{:?}", text);
    }
    assert!(begins_with("  /x", '/'));
    assert!(!begins_with("x/", '/'));
    assert!(!begins_with("", '/'));
}

#[test]
fn splitting_agrees_with_std() {
    for text in ["", "a", "a b", "/model  opus 4 ", "/model\topus", " a", "a\u{a0}b c", "a \n"] {
        let mut it = text.splitn(2, char::is_whitespace);
        let name = it.next().unwrap_or("").to_string();
        let rest = it.next().unwrap_or("").trim().to_string();
        assert_eq!(split_word(text), (name, rest), "{:?}", text);
    }
    assert_eq!(split_word("/model  opus 4 "), ("/model".to_string(), "opus 4".to_string()));
}

#[test]
fn a_digest_is_one_short_line() {
    assert_eq!(digest("", 3), "");
    assert_eq!(digest("a\nb", 3), "a b");
    assert_eq!(digest("abc", 3), "abc");
    assert_eq!(digest("abcd", 3), "abc…");
    assert_eq!(digest("äöü\nß", 3), "äöü…");
    assert_eq!(digest("\n", 0), "…");
}

#[test]
fn decimals_agree_with_std() {
    for n in [0u128, 1, 9, 10, 99, 100, 1234567890, u64::MAX as u128, u128::MAX] {
        assert_eq!(decimal(n), n.to_string());
    }
    for n in 0..2000u128 {
        assert_eq!(decimal(n), n.to_string());
    }
}

#[test]
fn padding_agrees_with_std() {
    for text in ["", "/help", "/model [alias|full-id]", "/permission-mode <mode>", "日本"] {
        assert_eq!(pad(text, 22), format!("{:<22}", text));
    }
}

#[test]
fn joining_agrees_with_std() {
    for parts in [texts(&[]), texts(&["a"]), texts(&["a", "", "b"])] {
        assert_eq!(join(&parts, "\n  "), parts.join("\n  "));
    }
}

#[test]
fn a_text_is_added_once() {
    let mut list = texts(&["/a"]);
    assert!(holds(&list, "/a"));
    assert!(!holds(&list, "/"));
    add_text(&mut list, "/b".to_string());
    add_text(&mut list, "/a".to_string());
    add_text(&mut list, "/b".to_string());
    assert_eq!(list, texts(&["/a", "/b"]));
}

#[test]
fn characters_and_texts() {
    let chars = chars_of("aé🔧");
    assert_eq!(chars, vec!['a', 'é', '🔧']);
    assert_eq!(text_of(&chars, 1, 3), "é🔧");
    assert_eq!(text_of(&chars, 1, 1), "");
    assert!(same("é", "é"));
    assert!(!same("e", "é"));
    assert!(!same("e", "ee"));
}

#[test]
fn line_breaks_become_spaces() {
    for text in ["", "a", "\n", "a\nb\n\nc", "é\r\n"] {
        assert_eq!(one_line(text), text.replace('\n', " "));
    }
}
