use snapshell::convo::{
    initial_messages, plan_next_turn, primary_output, push_assistant, push_user,
    request_body_json, Message, Role, TurnAction,
};
use snapshell::instruction::{
    compose_system_instruction, environment_name, select_instruction, Platform, SystemOverrides,
};
use snapshell::reasoning::{normalize_reasoning, ReasoningPayload};
use snapshell::sentinel::{classify_output, is_not_able_response, OutputDisposition};

fn overrides(
    cli_generic: Option<&str>,
    cli_single: Option<&str>,
    cli_multiline: Option<&str>,
    env_generic: Option<&str>,
    env_single: Option<&str>,
    env_multiline: Option<&str>,
) -> SystemOverrides {
    SystemOverrides {
        cli_generic: cli_generic.map(|s| s.to_string()),
        cli_single: cli_single.map(|s| s.to_string()),
        cli_multiline: cli_multiline.map(|s| s.to_string()),
        env_generic: env_generic.map(|s| s.to_string()),
        env_single: env_single.map(|s| s.to_string()),
        env_multiline: env_multiline.map(|s| s.to_string()),
    }
}

#[test]
fn cli_generic_override_beats_everything() {
    let o = overrides(Some("CLI"), Some("S"), Some("M"), Some("EG"), Some("ES"), Some("EM"));
    assert_eq!(select_instruction(&o, false), "CLI");
    assert_eq!(select_instruction(&o, true), "CLI");
}

#[test]
fn mode_specific_cli_override_beats_env() {
    let o = overrides(None, Some("S"), Some("M"), Some("EG"), Some("ES"), Some("EM"));
    assert_eq!(select_instruction(&o, false), "S");
    assert_eq!(select_instruction(&o, true), "M");
}

#[test]
fn mode_specific_env_override_beats_generic_env() {
    let o = overrides(None, None, None, Some("EG"), Some("ES"), Some("EM"));
    assert_eq!(select_instruction(&o, false), "ES");
    assert_eq!(select_instruction(&o, true), "EM");
}

#[test]
fn generic_env_override_beats_default() {
    let o = overrides(None, None, None, Some("EG"), None, None);
    assert_eq!(select_instruction(&o, false), "EG");
    assert_eq!(select_instruction(&o, true), "EG");
}

#[test]
fn empty_overrides_are_skipped() {
    // An override given as the empty text counts as not given: the next
    // candidate in precedence order is selected.
    let o = overrides(Some(""), None, None, Some("EG"), None, None);
    assert_eq!(select_instruction(&o, false), "EG");
    assert_eq!(select_instruction(&o, true), "EG");
    let o = overrides(None, Some(""), Some(""), None, Some("ES"), Some("EM"));
    assert_eq!(select_instruction(&o, false), "ES");
    assert_eq!(select_instruction(&o, true), "EM");
    let o = overrides(Some(""), Some(""), Some(""), Some(""), Some(""), Some(""));
    assert!(select_instruction(&o, false)
        .starts_with("You are a strict shell command generator."));
    assert!(select_instruction(&o, true)
        .starts_with("You are a strict shell command generator."));
}

#[test]
fn default_instruction_when_nothing_overridden() {
    let o = overrides(None, None, None, None, None, None);
    let single = select_instruction(&o, false);
    let multi = select_instruction(&o, true);
    assert!(single.starts_with("You are a strict shell command generator."));
    assert!(multi.starts_with("You are a strict shell command generator."));
    assert!(single.contains("The entire response MUST be a single-line shell command"));
    assert!(multi.contains("Multi-line shell scripts are allowed when necessary."));
    assert_ne!(single, multi);
}

#[test]
fn environment_note_appended_verbatim_exactly_once() {
    let o = overrides(Some("BASE"), None, None, None, None, None);
    let composed = compose_system_instruction(&o, false, "linux");
    let note = " Target environment: linux. Ensure generated commands are compatible with this environment.";
    assert_eq!(composed, format!("BASE{}", note));
    assert_eq!(composed.matches(note).count(), 1);
}

#[test]
fn environment_names_per_platform() {
    assert_eq!(environment_name(Platform::MacOs, &None), "macos");
    assert_eq!(environment_name(Platform::Windows, &None), "windows");
    assert_eq!(environment_name(Platform::Unknown, &None), "unknown");
    assert_eq!(environment_name(Platform::Linux, &None), "linux");
}

#[test]
fn linux_distro_detection_is_case_insensitive() {
    let ubuntu = Some("NAME=\"Ubuntu\"\nID=ubuntu".to_string());
    let debian = Some("ID=DEBIAN".to_string());
    let fedora = Some("ID=Fedora\nNAME=fedora".to_string());
    let arch = Some("ID=ARCH\n".to_string());
    let other = Some("ID=gentoo".to_string());
    assert_eq!(environment_name(Platform::Linux, &ubuntu), "linux (debian/ubuntu)");
    assert_eq!(environment_name(Platform::Linux, &debian), "linux (debian/ubuntu)");
    assert_eq!(environment_name(Platform::Linux, &fedora), "linux (fedora)");
    assert_eq!(environment_name(Platform::Linux, &arch), "linux (arch)");
    assert_eq!(environment_name(Platform::Linux, &other), "linux");
}

#[test]
fn sentinel_boundaries() {
    // 21 characters: the bare prefix, no reason at all.
    assert_eq!("(not able to answer):".len(), 21);
    assert!(!is_not_able_response("(not able to answer):"));
    // 22 matching characters.
    assert!(is_not_able_response("(not able to answer):x"));
    assert!(is_not_able_response("(NOT ABLE TO ANSWER): no such tool"));
    assert!(is_not_able_response("  (Not Able To Answer): reason  "));
    assert!(!is_not_able_response("not able to answer: because"));
    assert!(!is_not_able_response(""));
    assert!(!is_not_able_response("ls -la"));
    // Whitespace does not count toward the length.
    assert!(!is_not_able_response("   (not able to answer):   "));
}

#[test]
fn sentinel_decides_side_effects() {
    assert_eq!(
        classify_output("(not able to answer): unclear"),
        OutputDisposition::PrintOnly
    );
    assert_eq!(classify_output("rm -rf ./build"), OutputDisposition::CopyAndRecord);
    assert_eq!(classify_output(""), OutputDisposition::CopyAndRecord);
}

#[test]
fn reasoning_string_is_wrapped() {
    let p = ReasoningPayload::Text("thinking...".to_string());
    assert_eq!(normalize_reasoning(&p), "{\"reasoning\":\"thinking...\"}");
}

#[test]
fn reasoning_object_with_key_passes_through() {
    let compact = "{\"reasoning\":\"x\",\"extra\":1}".to_string();
    let p = ReasoningPayload::Object { has_reasoning_key: true, compact: compact.clone() };
    assert_eq!(normalize_reasoning(&p), compact);
}

#[test]
fn reasoning_object_without_key_is_stringified() {
    let p = ReasoningPayload::Object {
        has_reasoning_key: false,
        compact: "{\"steps\":[1,2]}".to_string(),
    };
    assert_eq!(normalize_reasoning(&p), "{\"reasoning\":\"{\\\"steps\\\":[1,2]}\"}");
}

#[test]
fn reasoning_other_json_is_stringified() {
    let p = ReasoningPayload::OtherJson { compact: "42".to_string() };
    assert_eq!(normalize_reasoning(&p), "{\"reasoning\":\"42\"}");
}

#[test]
fn normalized_reasoning_agrees_with_serde_json() {
    let text = "line one\nline \"two\" \\ done";
    let p = ReasoningPayload::Text(text.to_string());
    let mut m = serde_json::Map::new();
    m.insert(
        "reasoning".to_string(),
        serde_json::Value::String(text.to_string()),
    );
    let expected = serde_json::to_string(&serde_json::Value::Object(m)).unwrap();
    assert_eq!(normalize_reasoning(&p), expected);
}

#[test]
fn request_body_is_wellformed_json_with_exact_shape() {
    let mut messages: Vec<Message> = initial_messages(Some("sys".to_string()), "list files".to_string());
    push_assistant(&mut messages, "ls".to_string());
    push_user(&mut messages, "all of them".to_string());
    let body = request_body_json("openai/gpt-oss-20b", &messages, "low");
    assert_eq!(
        body,
        "{\"model\":\"openai/gpt-oss-20b\",\"messages\":[\
         {\"role\":\"system\",\"content\":\"sys\"},\
         {\"role\":\"user\",\"content\":\"list files\"},\
         {\"role\":\"assistant\",\"content\":\"ls\"},\
         {\"role\":\"user\",\"content\":\"all of them\"}],\
         \"reasoning\":{\"effort\":\"low\"}}"
    );
    let v: serde_json::Value = serde_json::from_str(&body).unwrap();
    assert_eq!(v["model"], "openai/gpt-oss-20b");
    assert_eq!(v["reasoning"]["effort"], "low");
    assert_eq!(v["messages"].as_array().unwrap().len(), 4);
    assert_eq!(v["messages"][0]["role"], "system");
    assert_eq!(v["messages"][3]["content"], "all of them");
}

#[test]
fn request_body_escapes_awkward_content() {
    let messages = vec![Message {
        role: Role::User,
        content: "say \"hi\"\n\ttab \\ done \u{1}".to_string(),
    }];
    let body = request_body_json("m", &messages, "high");
    let v: serde_json::Value = serde_json::from_str(&body).unwrap();
    assert_eq!(v["messages"][0]["content"], "say \"hi\"\n\ttab \\ done \u{1}");
}

#[test]
fn interactive_mode_sends_no_system_message() {
    let messages = initial_messages(None, "hello".to_string());
    assert_eq!(messages.len(), 1);
    assert!(matches!(messages[0].role, Role::User));
    assert_eq!(messages[0].content, "hello");
}

#[test]
fn loop_stops_on_empty_line_exit_word_and_read_error() {
    assert!(matches!(plan_next_turn(None), TurnAction::Stop));
    assert!(matches!(plan_next_turn(Some("")), TurnAction::Stop));
    assert!(matches!(plan_next_turn(Some("   \t  ")), TurnAction::Stop));
    assert!(matches!(plan_next_turn(Some("/exit")), TurnAction::Stop));
    assert!(matches!(plan_next_turn(Some("  /exit  ")), TurnAction::Stop));
}

#[test]
fn loop_sends_other_lines_trimmed() {
    match plan_next_turn(Some("  show me disk usage  ")) {
        TurnAction::Send(s) => assert_eq!(s, "show me disk usage"),
        TurnAction::Stop => panic!("expected the line to be sent"),
    }
    match plan_next_turn(Some("/exit now")) {
        TurnAction::Send(s) => assert_eq!(s, "/exit now"),
        TurnAction::Stop => panic!("only the exact exit word stops the loop"),
    }
}

#[test]
fn primary_output_takes_first_choice_trimmed() {
    assert_eq!(primary_output(&vec![]), "");
    assert_eq!(primary_output(&vec!["  ls -la \n".to_string()]), "ls -la");
    assert_eq!(
        primary_output(&vec!["du -sh .".to_string(), "ignored".to_string()]),
        "du -sh ."
    );
}
