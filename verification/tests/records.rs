use snapshell::history::{
    format_history_entry, history_line, make_history_entry, parse_history_line, render_history,
    HistoryEntry,
};

fn entry(ts: &str, prompt: &str, command: &str) -> HistoryEntry {
    HistoryEntry {
        timestamp: ts.to_string(),
        prompt: prompt.to_string(),
        command: command.to_string(),
    }
}

#[test]
fn history_line_matches_the_documented_shape() {
    let e = entry("2024-01-02T03:04:05+00:00", "list files", "ls");
    assert_eq!(
        history_line(&e),
        "{\"timestamp\":\"2024-01-02T03:04:05+00:00\",\"prompt\":\"list files\",\"command\":\"ls\"}"
    );
}

#[test]
fn history_line_agrees_with_serde_json_field_values() {
    let prompt = "say \"hi\"\nwith a \\ backslash and \t tab and \u{1} control";
    let command = "echo \"hi\"";
    let e = entry("2024-06-01T00:00:00+00:00", prompt, command);
    let line = history_line(&e);
    let v: serde_json::Value = serde_json::from_str(&line).unwrap();
    assert_eq!(v["timestamp"], "2024-06-01T00:00:00+00:00");
    assert_eq!(v["prompt"], prompt);
    assert_eq!(v["command"], command);
}

#[test]
fn parse_undoes_history_line() {
    let e = entry(
        "2024-06-01T00:00:00+00:00",
        "quotes \" and \\ and newline\nand \u{1f} low control",
        "printf '%s' done",
    );
    let line = history_line(&e);
    let back = parse_history_line(&line).expect("the canonical line must parse");
    assert_eq!(back.timestamp, e.timestamp);
    assert_eq!(back.prompt, e.prompt);
    assert_eq!(back.command, e.command);
}

#[test]
fn parse_rejects_other_text() {
    assert!(parse_history_line("").is_none());
    assert!(parse_history_line("not json at all").is_none());
    assert!(parse_history_line("{\"timestamp\":\"t\",\"prompt\":\"p\"}").is_none());
    assert!(parse_history_line("{\"timestamp\":\"t\",\"prompt\":\"p\",\"command\":\"c\"} ").is_none());
}

#[test]
fn formatted_entry_shape() {
    let e = entry("T", "ask", "cmd");
    assert_eq!(format_history_entry(&e), "T -> ask\n  cmd");
}

#[test]
fn listing_reproduces_entries_in_append_order() {
    let first = entry("t1", "first prompt", "first command");
    let second = entry("t2", "second \"prompt\"", "second\ncommand");
    let mut content = String::new();
    content.push_str(&history_line(&first));
    content.push('\n');
    content.push_str(&history_line(&second));
    content.push('\n');
    let listing = render_history(&content);
    let expected = format!(
        "{}\n{}\n",
        format_history_entry(&first),
        format_history_entry(&second)
    );
    assert_eq!(listing, expected);
}

#[test]
fn listing_passes_over_unparseable_lines() {
    let good = entry("t", "p", "c");
    let content = format!("garbage line\n{}\n# comment\n", history_line(&good));
    let listing = render_history(&content);
    assert_eq!(listing, format!("{}\n", format_history_entry(&good)));
}

#[test]
fn listing_of_empty_log_is_empty() {
    assert_eq!(render_history(""), "");
}

#[test]
fn fresh_entry_keeps_prompt_and_command_and_stamps_rfc3339() {
    let e = make_history_entry("ask something".to_string(), "a command".to_string());
    assert_eq!(e.prompt, "ask something");
    assert_eq!(e.command, "a command");
    assert!(chrono::DateTime::parse_from_rfc3339(&e.timestamp).is_ok());
}

#[test]
fn parse_undoes_every_escape_form() {
    let awkward = "short forms \u{8}\t\n\u{c}\r and quotes \" and \\ and low \u{0}\u{1f} controls";
    let e = entry("t", awkward, awkward);
    let line = history_line(&e);
    let back = parse_history_line(&line).expect("canonical line parses");
    assert_eq!(back.prompt, awkward);
    assert_eq!(back.command, awkward);
    let v: serde_json::Value = serde_json::from_str(&line).unwrap();
    assert_eq!(v["prompt"], awkward);
}

#[test]
fn round_trip_through_file_text() {
    let entries = vec![
        entry("2024-01-01T00:00:00+00:00", "one", "echo 1"),
        entry("2024-01-01T00:00:01+00:00", "two \u{8} bell", "echo \"2\""),
        entry("2024-01-01T00:00:02+00:00", "three", "echo 3 | wc -l"),
    ];
    let mut content = String::new();
    for e in &entries {
        content.push_str(&history_line(e));
        content.push('\n');
    }
    for (i, line) in content.lines().enumerate() {
        let back = parse_history_line(line).expect("every written line parses");
        assert_eq!(back.prompt, entries[i].prompt);
        assert_eq!(back.command, entries[i].command);
    }
}
