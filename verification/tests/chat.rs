use llamachat::chat::{describe, extract_tool_call, summarize, Chat, ChatAction, Message, Perms, Role};
use llamachat::tools::{ToolRequest, ToolResult};
use llamachat::types::{Effort, PermMode};

#[test]
fn slash_palette_filters_by_prefix() {
    let mut c = Chat::new("m".into());
    c.input = "/per".into();
    assert_eq!(c.slash_query().as_deref(), Some("per"));
    let names: Vec<_> = c.slash_matches().iter().map(|x| x.name).collect();
    assert!(names.contains(&"permissions"));
    assert!(!names.contains(&"help"));
    c.input = "/clear now".into();
    assert_eq!(c.slash_query(), None);
}

#[test]
fn commands_route_correctly() {
    let mut c = Chat::new("m".into());
    c.messages.push(Message::user("hi".into()));
    c.input = "/clear".into();
    assert!(matches!(c.submit(), ChatAction::Stay));
    assert!(c.messages.is_empty());

    c.input = "/help".into();
    c.submit();
    assert!(c.messages.iter().any(|m| m.role == Role::System));

    c.input = "/models".into();
    assert!(matches!(c.submit(), ChatAction::Back));
    c.input = "/quit".into();
    assert!(matches!(c.submit(), ChatAction::Quit));
}

#[test]
fn permissions_command_updates_state() {
    let mut c = Chat::new("m".into());
    c.input = "/permissions allow shell".into();
    c.submit();
    assert!(c.perms.allowed("shell"));
    c.input = "/permissions reset".into();
    c.submit();
    assert!(!c.perms.allowed("shell"));
    assert_eq!(c.mode, PermMode::Manual);
    c.input = "/permissions allow-all".into();
    c.submit();
    assert_eq!(c.mode, PermMode::Bypass);
}

#[test]
fn tool_call_needs_approval_for_shell() {
    let mut c = Chat::new("m".into());
    c.messages.push(Message::user("list files".into()));
    c.messages
        .push(Message::assistant("{\"tool\": \"shell\", \"args\": {\"command\": \"ls\"}}".into()));
    c.rounds = 0;
    c.after_turn();
    assert!(c.pending().is_some());
    assert_eq!(c.pending().unwrap().name, "shell");
    assert!(!c.is_tool_running());
    assert!(c.take_tool_request().is_none());
    assert_eq!(c.rounds, 1);
}

#[test]
fn file_calls_run_on_their_own() {
    let mut c = Chat::new("m".into());
    c.messages.push(Message::assistant(
        "ok {\"tool\": \"file\", \"args\": {\"action\": \"read\", \"path\": \"a.txt\"}} done".into(),
    ));
    c.after_turn();
    assert!(c.pending().is_none());
    assert!(c.is_tool_running());
    let req = c.take_tool_request().unwrap();
    assert_eq!(req.name, "file");
    assert_eq!(c.running_tool().map(|s| s.as_str()), Some("file"));
}

#[test]
fn plan_mode_refuses_and_tells_the_model() {
    let mut c = Chat::new("m".into());
    c.mode = PermMode::Plan;
    c.messages.push(Message::assistant("{\"tool\": \"shell\", \"args\": {\"command\": \"rm x\"}}".into()));
    c.after_turn();
    assert!(c.pending().is_none());
    assert_eq!(c.rounds, 1);
    let n = c.messages.len();
    assert_eq!(c.messages[n - 3].content, "Plan mode: auto-denied `shell` (read-only).");
    assert_eq!(c.messages[n - 2].content, "In plan mode — reads only.");
    assert_eq!(c.messages[n - 1].role, Role::Assistant);
    assert!(c.is_streaming());
    let req = c.take_stream_request().unwrap();
    assert_eq!(req[0].0, "system");
    assert!(req.iter().any(|(r, t)| r == "user" && t == "Tool result for shell:\nIn plan mode — reads only."));
}

#[test]
fn accept_edits_runs_safe_shell_commands() {
    let mut c = Chat::new("m".into());
    c.mode = PermMode::AcceptEdits;
    c.messages.push(Message::assistant("{\"tool\": \"shell\", \"args\": {\"command\": \"  ls -la\"}}".into()));
    c.after_turn();
    assert!(c.pending().is_none());
    assert!(c.is_tool_running());
    c.messages.push(Message::assistant("{\"tool\": \"shell\", \"args\": {\"command\": \"rm -r x\"}}".into()));
    c.tool_running = false;
    c.after_turn();
    assert!(c.pending().is_some());
}

#[test]
fn too_many_rounds_stop_the_loop() {
    let mut c = Chat::new("m".into());
    c.rounds = 8;
    c.messages.push(Message::assistant("{\"tool\": \"file\", \"args\": {}}".into()));
    c.after_turn();
    assert_eq!(c.messages.last().unwrap().content, "Stopped after 8 tool calls.");
    assert_eq!(c.rounds, 8);
}

#[test]
fn denying_sends_the_refusal_back() {
    let mut c = Chat::new("m".into());
    c.messages.push(Message::assistant("{\"tool\": \"shell\", \"args\": {\"command\": \"ls\"}}".into()));
    c.after_turn();
    c.deny();
    assert!(c.pending().is_none());
    let n = c.messages.len();
    assert_eq!(c.messages[n - 3].content, "Denied `shell`.");
    assert_eq!(c.messages[n - 2].content, "Permission denied by the user.");
    assert_eq!(c.messages[n - 2].tool.as_deref(), Some("shell"));
}

#[test]
fn allow_always_remembers_the_tool() {
    let mut c = Chat::new("m".into());
    c.messages.push(Message::assistant("{\"tool\": \"process\", \"args\": {\"action\": \"list\"}}".into()));
    c.after_turn();
    assert!(c.pending().is_some());
    c.allow_always();
    assert!(c.perms.allowed("process"));
    assert!(c.is_tool_running());
}

#[test]
fn a_tool_result_starts_the_next_turn() {
    let mut c = Chat::new("m".into());
    c.running = Some("shell".into());
    c.tool_running = true;
    let r = ToolResult { ok: true, output: Some("  out  \n".into()), error: None, media: None, elapsed_ms: 3 };
    c.on_tool_result(&r);
    assert!(!c.is_tool_running());
    let n = c.messages.len();
    assert_eq!(c.messages[n - 2].content, "out");
    assert_eq!(c.messages[n - 2].tool.as_deref(), Some("shell"));
    assert!(c.is_streaming());
}

#[test]
fn stream_events_fill_and_close_the_reply() {
    let mut c = Chat::new("m".into());
    c.input = "hello".into();
    c.submit();
    assert!(c.is_streaming());
    c.on_token("Hi");
    c.on_token(" there");
    assert_eq!(c.messages.last().unwrap().content, "Hi there");
    assert_eq!(c.stream_tokens, 2);
    c.on_stream_done();
    assert!(!c.is_streaming());

    c.input = "again".into();
    c.submit();
    c.on_stream_error("boom");
    assert_eq!(c.messages.last().unwrap().content, "⚠ boom");
    assert_eq!(c.messages.last().unwrap().role, Role::System);
}

#[test]
fn interrupt_marks_an_unstarted_reply() {
    let mut c = Chat::new("m".into());
    c.input = "hello".into();
    c.submit();
    c.interrupt();
    assert!(!c.busy());
    assert_eq!(c.messages.last().unwrap().content, "(stopped)");
}

#[test]
fn busy_chats_ignore_input_and_blank_input_is_ignored() {
    let mut c = Chat::new("m".into());
    c.input = "   ".into();
    assert!(matches!(c.submit(), ChatAction::Stay));
    assert!(c.messages.is_empty());
    c.streaming = true;
    c.input = "hi".into();
    c.submit();
    assert!(c.messages.is_empty());
    assert_eq!(c.input, "");
}

#[test]
fn retry_resends_the_last_prompt() {
    let mut c = Chat::new("m".into());
    c.messages.push(Message::user("first".into()));
    c.messages.push(Message::assistant("answer".into()));
    c.rounds = 3;
    c.input = "/retry".into();
    c.submit();
    assert_eq!(c.rounds, 0);
    assert_eq!(c.messages.len(), 2);
    assert_eq!(c.messages[0].content, "first");
    assert_eq!(c.messages[1].content, "");
    assert!(c.is_streaming());
}

#[test]
fn effort_and_mode_commands() {
    let mut c = Chat::new("m".into());
    c.input = "/effort high".into();
    c.submit();
    assert_eq!(c.effort, Effort::High);
    assert!(c.messages.last().unwrap().content.starts_with("Effort → effort:high  ·  "));
    c.input = "/effort huge".into();
    c.submit();
    assert_eq!(c.messages.last().unwrap().content, "Unknown effort `huge`. Try: low, medium, high, max");
    c.input = "/mode".into();
    c.submit();
    assert_eq!(c.mode, PermMode::AcceptEdits);
    c.input = "/permissions mode nope".into();
    c.submit();
    assert_eq!(c.messages.last().unwrap().content, "Unknown mode `nope`. Try: manual, accept-edits, plan, auto, bypass");
    c.input = "/frobnicate".into();
    c.submit();
    assert_eq!(c.messages.last().unwrap().content, "Unknown command `/frobnicate`. Try `/help`.");
    c.input = "/tools off".into();
    c.submit();
    assert!(!c.tools_on);
    c.cycle_mode();
    assert_eq!(c.mode, PermMode::Plan);
}

#[test]
fn status_counts_the_conversation() {
    let mut c = Chat::new("llama3".into());
    c.messages.push(Message::user("a".into()));
    c.messages.push(Message::system("note".into()));
    c.messages.push(Message::assistant("b".into()));
    let s = c.status_text();
    assert!(s.starts_with("**Status**\n- Model: `llama3`\n- Mode: ⏸ manual (asks before shell, file writes, and process)"));
    assert!(s.ends_with("- Tools: on\n- Messages: 2"));
}

#[test]
fn permissions_text_lists_tools_in_order() {
    let mut p = Perms::default();
    assert!(!p.allowed("x"));
    p.allow("shell".into());
    p.allow("file".into());
    p.allow("shell".into());
    assert_eq!(p.joined(), "file, shell");
    let mut c = Chat::new("m".into());
    c.perms = p;
    assert_eq!(
        c.permissions_text(),
        "**Permissions**\n- Bypass mode: off — destructive tools ask first\n- Always-allowed: file, shell\n\n`/permissions allow <tool>` · `/permissions allow-all` · `/permissions reset`"
    );
}

#[test]
fn palette_navigation_wraps() {
    let mut c = Chat::new("m".into());
    c.input = "/".into();
    c.move_slash(-1);
    assert_eq!(c.slash_selected, 10);
    c.move_slash(1);
    assert_eq!(c.slash_selected, 0);
    c.input = "/st".into();
    c.slash_selected = 0;
    c.complete_slash();
    assert_eq!(c.input, "/status");
    c.push_char('x');
    assert_eq!(c.input, "/statusx");
    c.backspace();
    assert_eq!(c.input, "/status");
}

#[test]
fn tool_calls_are_found_with_their_span() {
    let text = "Sure. ```json\n{\"tool\": \"shell\", \"args\": {\"command\": \"echo }\"}}\n```";
    let p = extract_tool_call(text).unwrap();
    assert_eq!(p.req.name, "shell");
    assert_eq!(p.req.args, "{\"command\":\"echo }\"}");
    let chars: Vec<char> = text.chars().collect();
    assert_eq!(chars[p.start], '{');
    assert_eq!(chars[p.end - 1], '}');
    assert!(extract_tool_call("no tool here").is_none());
    assert!(extract_tool_call("\"tool\": \"x\"").is_none());
    let bare = extract_tool_call("{\"tool\": \"process\"}").unwrap();
    assert_eq!(bare.req.args, "{}");
}

#[test]
fn summaries_and_descriptions() {
    let r = |output: Option<&str>, error: Option<&str>| ToolResult {
        ok: true,
        output: output.map(|s| s.to_string()),
        error: error.map(|s| s.to_string()),
        media: None,
        elapsed_ms: 0,
    };
    assert_eq!(summarize(&r(Some("  x \n"), None)), "x");
    assert_eq!(summarize(&r(Some("   "), None)), "(no output)");
    assert_eq!(summarize(&r(None, Some("bad"))), "error: bad");
    assert_eq!(summarize(&r(None, None)), "(no output)");
    let req = |name: &str, args: &str| ToolRequest { name: name.into(), args: args.into() };
    assert_eq!(describe(&req("shell", "{\"command\": \"ls -la\"}")), "shell · ls -la");
    assert_eq!(describe(&req("file", "{\"action\": \"read\", \"path\": \"a\"}")), "file · read a");
    assert_eq!(describe(&req("process", "{}")), "process");
    assert_eq!(describe(&req("web", "{\"q\":1}")), "web · {\"q\":1}");
}
