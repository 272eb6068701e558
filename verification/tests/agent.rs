use llamachat::agent::{
    agent_mode, agent_system_prompt, ax_is_empty, blind_fallback, call_action, desktop_outcome, fed_message,
    find_reply_call, is_desktop_action, parse_tool_call, registry_outcome, result_note, route, vision_fallback,
    AgentMode, AgentRun, Route, Turn, MAX_STEPS,
};
use llamachat::tools::ToolResult;

#[test]
fn finds_the_first_object_with_a_tool_key() {
    let text = r#"Sure. {"x": 1} then {"tool": "shell", "args": {"command": "ls"}} done"#;
    let (name, args) = parse_tool_call(text).unwrap();
    assert_eq!(name, "shell");
    let v: serde_json::Value = serde_json::from_str(&args).unwrap();
    assert_eq!(v["command"], "ls");
    assert_eq!(parse_tool_call(r#"{"tool": "computer"}"#).unwrap().1, "{}");
    assert!(parse_tool_call("no json here").is_none());
    assert!(parse_tool_call(r#"{"tool": 3}"#).is_none());
    // Braces inside strings do not close the object.
    let (n, _) = parse_tool_call(r#"{"tool": "sh}ell", "args": {}}"#).unwrap();
    assert_eq!(n, "sh}ell");
}

#[test]
fn desktop_actions_route_natively() {
    assert!(is_desktop_action("read_screen"));
    assert!(is_desktop_action("scroll"));
    assert!(!is_desktop_action("open_app"));
    assert_eq!(route("read_screen", true), Route::Describe);
    assert_eq!(route("screen", false), Route::ReadTree);
    assert_eq!(route("click", true), Route::Control);
    assert_eq!(route("open_app", false), Route::Registry);
    assert_eq!(call_action(r#"{"action": "click", "x": 1}"#), "click");
    assert_eq!(call_action(r#"{"x": 1}"#), "");
}

#[test]
fn an_accessibility_dump_of_window_chrome_is_empty() {
    assert!(ax_is_empty("No accessibility elements exposed for Discord"));
    let chrome = "Clickable elements (role: label @ x,y):\n  AXButton: close button @ 10,10\n  AXButton: zoom button @ 30,10";
    assert!(ax_is_empty(chrome));
    let useful = "Clickable elements (role: label @ x,y):\n  AXButton: close button @ 10,10\n  AXTextField: Message @ 400,700";
    assert!(!ax_is_empty(useful));
    assert!(ax_is_empty(""));
}

#[test]
fn the_prompt_depends_on_mode_perception_and_memory() {
    let plan = agent_system_prompt("TOOLS", "  ", true, "vision");
    assert!(plan.contains("PLAN only"));
    assert!(plan.ends_with("\n\nTOOLS"));
    let act = agent_system_prompt("TOOLS", " likes tea \n", false, "vision");
    assert!(act.contains("vision model's plain-text DESCRIPTION"));
    assert!(act.ends_with("What you know about the user:\nlikes tea"));
    let ax = agent_system_prompt("TOOLS", "", false, "accessibility");
    assert!(ax.contains("`role: label @ x,y`"));
    assert!(ax.contains(r#"{"action": "read_screen", "app": "Discord"}"#));
}

#[test]
fn a_run_reads_replies_by_mode() {
    let mut plan = AgentRun::new(agent_mode("plan"));
    assert!(matches!(plan.on_reply("  1. open it  "), Turn::Plan(p) if p == "1. open it"));
    assert!(!plan.active());

    let mut ask = AgentRun::new(agent_mode("ask"));
    assert_eq!(ask.mode, AgentMode::Ask);
    match ask.on_reply(r#"{"tool": "shell", "args": {"command": "ls"}}"#) {
        Turn::Approve { tool, .. } => assert_eq!(tool, "shell"),
        other => panic!("unexpected {other:?}"),
    }
    assert!(!ask.on_decision(false));
    assert_eq!(ask.step, 1);
    assert!(ask.active());

    let mut auto = AgentRun::new(agent_mode("bypass"));
    assert!(matches!(auto.on_reply(r#"{"tool": "x"}"#), Turn::Run { .. }));
    assert!(matches!(auto.on_reply(" All done. "), Turn::Answer(a) if a == "All done."));
    assert!(!auto.active());
}

#[test]
fn a_run_stops_at_the_step_limit() {
    let mut run = AgentRun::new(AgentMode::Auto);
    let mut last = false;
    let mut steps = 0;
    while run.active() {
        last = run.on_result();
        steps += 1;
    }
    assert!(last);
    assert_eq!(steps, MAX_STEPS);
}

#[test]
fn results_are_fed_back_cut_and_annotated() {
    let short = fed_message("computer", "click", true, "Clicked.");
    assert!(short.starts_with("Result of `computer`:\nClicked.\n(You have NOT seen"));
    let read = fed_message("computer", "read_screen", true, "AXButton");
    assert_eq!(read, "Result of `computer`:\nAXButton");
    let failed = fed_message("computer", "click", false, "ERROR: no");
    assert_eq!(failed, "Result of `computer`:\nERROR: no");
    let long = "a".repeat(5000);
    let fed = fed_message("shell", "", true, &long);
    assert_eq!(fed, format!("Result of `shell`:\n{}\n…(truncated)", "a".repeat(4000)));
}

#[test]
fn outcomes_and_fallback_notes() {
    assert_eq!(desktop_outcome(Ok("fine".into())), (true, "fine".to_string()));
    assert_eq!(desktop_outcome(Err("denied".into())), (false, "ERROR: denied".to_string()));
    let ok = ToolResult { ok: true, output: None, error: None, media: None, elapsed_ms: 0 };
    assert_eq!(registry_outcome(&ok), (true, "(done)".to_string()));
    let bad = ToolResult { ok: false, output: None, error: None, media: None, elapsed_ms: 0 };
    assert_eq!(registry_outcome(&bad), (false, "ERROR: failed".to_string()));
    assert!(vision_fallback("A window").ends_with(":)\nA window"));
    let blind = blind_fallback("AXButton: close button @ 1,1", "no permission.");
    assert!(blind.starts_with("AXButton: close button @ 1,1\n(Only window controls"));
    assert!(blind.contains("unavailable: no permission. Grant Screen Recording"));
}

#[test]
fn the_core_agent_reads_bare_and_fenced_calls() {
    let bare = find_reply_call(r#"ok {"tool": "shell", "args": {"command": "pwd"}} bye"#).unwrap();
    assert_eq!(bare.name, "shell");
    let fenced = find_reply_call("```json\n{\"tool\": \"web\"}\n```").unwrap();
    assert_eq!(fenced.name, "web");
    assert_eq!(fenced.args, "{}");
    assert!(find_reply_call("nothing").is_none());
    let r = ToolResult { ok: true, output: Some("42".into()), error: None, media: None, elapsed_ms: 0 };
    assert_eq!(result_note("calc", &r), "Tool result for calc: 42");
    let e = ToolResult { ok: false, output: None, error: None, media: None, elapsed_ms: 0 };
    assert_eq!(result_note("calc", &e), "Tool result for calc: no output");
}
