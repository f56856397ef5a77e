use ccgui::json::{as_str, member, parse_json};
use ccgui::wire::{parse_result, read_line, read_message, user_line, Ev, TurnResult, Usage};

fn turn(line: &str) -> TurnResult {
    parse_result(&parse_json(line).unwrap())
}

fn texts(parts: &[&str]) -> Vec<String> {
    parts.iter().map(|part| part.to_string()).collect()
}

fn no_tokens() -> Usage {
    Usage { input: 0, cache_create: 0, cache_read: 0, output: 0 }
}

#[test]
fn a_bare_result() {
    let expected = TurnResult {
        result: "(empty response)".to_string(),
        session_id: None,
        usage: no_tokens(),
        denials: vec![],
        denied_dirs: vec![],
    };
    assert_eq!(turn("{}"), expected);
    assert_eq!(
        turn("{\"result\": 1, \"session_id\": null, \"usage\": [], \"permission_denials\": {}}"),
        expected,
    );
}

#[test]
fn a_full_result() {
    let line = "{\"type\":\"result\",\"result\":\"done\",\"session_id\":\"s1\",\"usage\":{\
        \"input_tokens\":1,\"cache_creation_input_tokens\":2,\"cache_read_input_tokens\":3,\
        \"output_tokens\":4},\"permission_denials\":[\
        {\"tool_name\":\"Write\",\"tool_input\":{\"file_path\":\"/etc/a.conf\"}},\
        {\"tool_name\":\"Bash\",\"tool_input\":{\"command\":\"rm x\",\"file_path\":\"/tmp/x\"}},\
        {\"tool_name\":\"Edit\",\"tool_input\":{\"file_path\":\"/etc/b.conf\",\"command\":\"\"}},\
        {\"tool_name\":\"Edit\",\"tool_input\":{\"file_path\":\"b.conf\"}},\
        {\"tool_name\":\"Edit\",\"tool_input\":{\"file_path\":\"/var/log/c\"}},\
        {\"tool_input\":{}},\
        {\"tool_name\":\"Web\"}]}";
    assert_eq!(
        turn(line),
        TurnResult {
            result: "done".to_string(),
            session_id: Some("s1".to_string()),
            usage: Usage { input: 1, cache_create: 2, cache_read: 3, output: 4 },
            denials: texts(&[
                "Write -> /etc/a.conf",
                "Bash: rm x",
                "Edit -> /etc/b.conf",
                "Edit -> b.conf",
                "Edit -> /var/log/c",
                "?",
                "Web",
            ]),
            denied_dirs: texts(&["/etc", "/var/log"]),
        },
    );
    assert_eq!(read_line(line), vec![Ev::Turn(turn(line))]);
}

#[test]
fn a_file_at_the_root_asks_for_the_root() {
    let line = "{\"permission_denials\":[{\"tool_input\":{\"file_path\":\"/x\"}},\
        {\"tool_input\":{\"file_path\":\"/\"}}]}";
    let turn = turn(line);
    assert_eq!(turn.denied_dirs, texts(&["/"]));
    assert_eq!(turn.denials, texts(&["? -> /x", "? -> /"]));
}

#[test]
fn counts_that_are_no_counts_are_zero() {
    let line = "{\"usage\":{\"input_tokens\":-1,\"output_tokens\":\"5\",\
        \"cache_read_input_tokens\":1.5}}";
    assert_eq!(turn(line).usage, no_tokens());
}

#[test]
fn an_init_message() {
    assert_eq!(
        read_line("{\"type\":\"system\",\"subtype\":\"init\",\"model\":\"m\",\"session_id\":\"s\"}"),
        vec![Ev::Init { model: Some("m".to_string()), session_id: Some("s".to_string()) }],
    );
    assert_eq!(
        read_line("{\"type\":\"system\",\"subtype\":\"init\",\"model\":3}"),
        vec![Ev::Init { model: None, session_id: None }],
    );
    assert_eq!(read_line("{\"type\":\"system\",\"subtype\":\"other\"}"), vec![]);
    assert_eq!(read_line("{\"type\":\"system\"}"), vec![]);
}

#[test]
fn the_tools_of_a_reply() {
    let line = "{\"type\":\"assistant\",\"message\":{\"content\":[\
        {\"type\":\"text\",\"text\":\"hi\"},\
        {\"type\":\"tool_use\",\"name\":\"Bash\",\"input\":{\"command\":\"ls\\n-l\",\
        \"file_path\":\"/f\"}},\
        {\"type\":\"tool_use\",\"name\":\"Read\",\"input\":{\"file_path\":\"/a\",\"path\":\"/b\"}},\
        {\"type\":\"tool_use\",\"name\":\"Glob\",\"input\":{\"path\":\"/b\"}},\
        {\"type\":\"tool_use\",\"name\":\"Odd\",\"input\":{\"command\":\"\",\"path\":\"/b\"}},\
        {\"type\":\"tool_use\"}]}}";
    let labels = ["🔧 Bash: ls -l", "🔧 Read: /a", "🔧 Glob: /b", "🔧 Odd", "🔧 tool"];
    let expected: Vec<Ev> = labels.iter().map(|label| Ev::Tool(label.to_string())).collect();
    assert_eq!(read_line(line), expected);
    assert_eq!(read_line("{\"type\":\"assistant\",\"message\":{\"content\":\"hi\"}}"), vec![]);
    assert_eq!(read_line("{\"type\":\"assistant\"}"), vec![]);
}

#[test]
fn a_long_target_is_cut() {
    let label = |n: usize| {
        let line = format!(
            "{{\"type\":\"assistant\",\"message\":{{\"content\":[{{\"type\":\"tool_use\",\
             \"name\":\"B\",\"input\":{{\"command\":\"{}\"}}}}]}}}}",
            "é".repeat(n)
        );
        match read_line(&line).pop() {
            Some(Ev::Tool(label)) => label,
            _ => panic!("no tool"),
        }
    };
    assert_eq!(label(120), format!("🔧 B: {}", "é".repeat(120)));
    assert_eq!(label(121), format!("🔧 B: {}…", "é".repeat(120)));
    assert_eq!(label(500), format!("🔧 B: {}…", "é".repeat(120)));
}

#[test]
fn pieces_of_a_reply() {
    let piece = |kind: &str, delta: &str| {
        read_line(&format!(
            "{{\"type\":\"stream_event\",\"event\":{{\"type\":\"{}\",\"delta\":{}}}}}",
            kind, delta
        ))
    };
    assert_eq!(
        piece("content_block_delta", "{\"type\":\"text_delta\",\"text\":\"ab\"}"),
        vec![Ev::Delta("ab".to_string())],
    );
    assert_eq!(piece("content_block_delta", "{\"type\":\"text_delta\",\"text\":\"\"}"), vec![]);
    assert_eq!(piece("content_block_delta", "{\"type\":\"text_delta\"}"), vec![]);
    assert_eq!(piece("content_block_delta", "{\"type\":\"thinking_delta\"}"), vec![Ev::Thinking]);
    assert_eq!(piece("content_block_delta", "{\"type\":\"input_json_delta\"}"), vec![]);
    assert_eq!(piece("content_block_start", "{\"type\":\"text_delta\",\"text\":\"ab\"}"), vec![]);
    assert_eq!(read_line("{\"type\":\"stream_event\"}"), vec![]);
}

#[test]
fn other_lines_report_nothing() {
    for line in ["", "   ", "not json", "{\"type\":\"user\"}", "{}", "[]", "\"result\"", "{"] {
        assert_eq!(read_line(line), vec![], "{:?}", line);
    }
}

#[test]
fn a_message_is_read_as_its_line_is() {
    let line = "{\"type\":\"result\",\"result\":\"x\"}";
    assert_eq!(read_message(&parse_json(line).unwrap()), read_line(line));
}

#[test]
fn a_user_message_is_one_line() {
    assert_eq!(
        user_line("hi"),
        "{\"message\":{\"content\":\"hi\",\"role\":\"user\"},\"type\":\"user\"}",
    );
    assert_eq!(
        user_line("a\n\"b\"\\\té"),
        "{\"message\":{\"content\":\"a\\n\\\"b\\\"\\\\\\té\",\"role\":\"user\"},\"type\":\"user\"}",
    );
}

#[test]
fn a_user_message_is_read_back() {
    for message in ["", "hi", "a\nb\r\n", "\u{0}\u{7f}\u{2028}", "/x \"y\" {z}", "日本\u{1f527}"] {
        let line = user_line(message);
        assert!(!line.contains('\n'));
        let value = parse_json(&line).unwrap();
        let body = member(Some(&value), "message");
        assert_eq!(as_str(member(Some(&value), "type")), Some("user"));
        assert_eq!(as_str(member(body, "role")), Some("user"));
        assert_eq!(as_str(member(body, "content")), Some(message));
    }
}
