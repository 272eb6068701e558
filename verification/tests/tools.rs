use llamachat::tools::{
    brings_web_content, gate, gate_refusal, needs_approval, system_prompt, Attempt, DesktopTool, FileOp,
    FilesystemTool, Gate, Gatekeeper, ProcessOp, ProcessTool, ShellPlan, ShellTool, ToolLimits, ToolSafety,
};

fn shell() -> ShellTool {
    ShellTool::new(ToolLimits::default())
}

#[test]
fn default_limits() {
    let l = ToolLimits::default();
    assert_eq!(l.max_shell_output, 262144);
    assert_eq!(l.max_file_read, 10485760);
    assert_eq!(l.max_file_write, 52428800);
    assert_eq!(l.shell_timeout.as_secs(), 30);
    assert_eq!(l.browser_timeout.as_secs(), 15);
    assert_eq!(l.process_timeout.as_secs(), 300);
}

#[test]
fn shell_refuses_blocked_patterns_naming_the_first() {
    match shell().prepare("{\"command\": \"sudo shutdown now\"}").unwrap() {
        ShellPlan::Refuse(r) => {
            assert!(!r.ok);
            assert_eq!(r.error.as_deref(), Some("Blocked dangerous command pattern: shutdown"));
        }
        _ => panic!("should refuse"),
    }
    match shell().prepare("{\"command\": \"rm -rf / && reboot\"}").unwrap() {
        ShellPlan::Refuse(r) => assert_eq!(r.error.as_deref(), Some("Blocked dangerous command pattern: rm -rf /")),
        _ => panic!("should refuse"),
    }
    assert_eq!(shell().prepare("{}").err().as_deref(), Some("Missing required arg: command"));
    match shell().prepare("{\"command\": \"ls\", \"cwd\": \"/tmp\"}").unwrap() {
        ShellPlan::Run { command, cwd } => {
            assert_eq!(command, "ls");
            assert_eq!(cwd.as_deref(), Some("/tmp"));
        }
        _ => panic!("should run"),
    }
}

#[test]
fn shell_output_is_assembled() {
    let r = shell().finish("hello\n", "", true, Some(0));
    assert!(r.ok);
    assert_eq!(r.output.as_deref(), Some("hello\n"));
    assert_eq!(r.error, None);
    let r = shell().finish("", "boom", false, Some(2));
    assert!(!r.ok);
    assert_eq!(r.output.as_deref(), Some("stderr:\nboom"));
    assert_eq!(r.error.as_deref(), Some("exit code: 2"));
    let r = shell().finish("out", "err", false, None);
    assert_eq!(r.output.as_deref(), Some("out\nstderr:\nerr"));
    assert_eq!(r.error.as_deref(), Some("exit code: -1"));
    let r = shell().finish("", "", true, Some(0));
    assert_eq!(r.output, None);
    let small = ShellTool::new(ToolLimits { max_shell_output: 4, ..ToolLimits::default() });
    let r = small.finish("abcdef", "", true, Some(0));
    assert_eq!(r.output.as_deref(), Some("abcd\n... (output truncated)"));
    let r = small.finish("abé", "", true, Some(0));
    assert_eq!(r.output.as_deref(), Some("abé"));
    let r = small.finish("abcé", "", true, Some(0));
    assert_eq!(r.output.as_deref(), Some("abc\n... (output truncated)"));
    assert_eq!(shell().failed_to_start("no sh").error.as_deref(), Some("Failed to execute: no sh"));
}

#[test]
fn tool_infos_describe_the_tools() {
    let s = shell().info();
    assert_eq!(s.name, "shell");
    assert_eq!(s.safety, ToolSafety::Destructive);
    assert_eq!(s.parameters.len(), 2);
    let f = FilesystemTool::new(ToolLimits::default()).info();
    assert_eq!(f.name, "file");
    assert_eq!(f.safety, ToolSafety::Write);
    assert_eq!(f.parameters[4].name, "new_text");
    let p = ProcessTool::new(ToolLimits::default()).info();
    assert_eq!(p.parameters[2].param_type, "number");
    let d = DesktopTool::new().info();
    assert_eq!(d.safety, ToolSafety::ReadOnly);
}

#[test]
fn file_arguments_are_checked() {
    let fs = FilesystemTool::new(ToolLimits::default());
    assert_eq!(fs.prepare("{}").err().as_deref(), Some("Missing required arg: action (read|write|edit)"));
    assert_eq!(fs.prepare("{\"action\": \"read\"}").err().as_deref(), Some("Missing required arg: path"));
    assert!(matches!(fs.prepare("{\"action\": \"read\", \"path\": \"a\"}"), Ok(FileOp::Read { .. })));
    assert_eq!(
        fs.prepare("{\"action\": \"write\", \"path\": \"a\"}").err().as_deref(),
        Some("Missing required arg: content")
    );
    assert_eq!(
        fs.prepare("{\"action\": \"edit\", \"path\": \"a\", \"old_text\": \"x\"}").err().as_deref(),
        Some("Missing required arg: new_text")
    );
    assert_eq!(
        fs.prepare("{\"action\": \"zap\", \"path\": \"a\"}").err().as_deref(),
        Some("Unknown file action: zap. Use read, write, or edit.")
    );
}

#[test]
fn file_reads_refuse_binaries_and_big_files() {
    let fs = FilesystemTool::new(ToolLimits::default());
    assert_eq!(
        fs.read_refusal("shot.png").unwrap().error.as_deref(),
        Some("Binary file type .png — use a different tool to inspect")
    );
    assert!(fs.read_refusal("notes.txt").is_none());
    assert!(fs.read_refusal(".bashrc").is_none());
    assert_eq!(
        fs.size_refusal(11 * 1024 * 1024).unwrap().error.as_deref(),
        Some("File too large: 11534336 (limit: 10MB)")
    );
    assert!(fs.size_refusal(1024).is_none());
}

#[test]
fn long_files_are_previewed() {
    let fs = FilesystemTool::new(ToolLimits::default());
    let text: String = (1..=205).map(|i| format!("l{i}\n")).collect();
    let r = fs.read_done(&text);
    let out = r.output.unwrap();
    assert!(out.starts_with("l1\nl2\n"));
    assert!(out.ends_with("l200\n... (205 lines total, showing first 200)"));
    assert_eq!(fs.read_done("a\r\nb").output.as_deref(), Some("a\r\nb"));
}

#[test]
fn writes_and_edits() {
    let small = FilesystemTool::new(ToolLimits { max_file_write: 3 * 1024 * 1024, ..ToolLimits::default() });
    let big = "x".repeat(3 * 1024 * 1024 + 1);
    assert_eq!(
        small.write_refusal(&big).unwrap().error.as_deref(),
        Some("Content too large: 3145729 (limit: 3MB)")
    );
    assert!(small.write_refusal("ok").is_none());
    assert_eq!(small.write_done("a.txt", true, 12).output.as_deref(), Some("Overwrote a.txt (12 bytes)"));
    assert_eq!(small.write_done("a.txt", false, 0).output.as_deref(), Some("Created a.txt (0 bytes)"));
    assert_eq!(small.edit_apply("a b a", "b", "c").ok().as_deref(), Some("a c a"));
    assert_eq!(
        small.edit_apply("a b a", "a", "c").err().unwrap().error.as_deref(),
        Some("old_text matched 2 times — must be unique. Provide more context.")
    );
    assert_eq!(
        small.edit_apply("abc", "z", "c").err().unwrap().error.as_deref(),
        Some("old_text not found in file")
    );
    assert_eq!(small.edit_apply("aaa", "aa", "b").ok().as_deref(), Some("ba"));
    assert_eq!(small.edit_done("a.txt").output.as_deref(), Some("Edited a.txt — 1 replacement"));
}

#[test]
fn process_arguments_and_results() {
    let p = ProcessTool::new(ToolLimits::default());
    assert!(matches!(p.prepare("{\"action\": \"list\"}"), Ok(ProcessOp::List)));
    assert!(matches!(p.prepare("{\"action\": \"kill\", \"pid\": 42}"), Ok(ProcessOp::Kill { pid: 42 })));
    assert_eq!(p.prepare("{\"action\": \"kill\"}").err().as_deref(), Some("Missing required arg: pid"));
    assert_eq!(p.prepare("{\"action\": \"nap\"}").err().as_deref(), Some("Unknown process action: nap"));
    assert!(p.spawn_refusal("yes | head").is_some());
    assert!(p.spawn_refusal("sleep 1").is_none());
    let listing: String = (0..35).map(|i| format!("p{i}\n")).collect();
    let out = p.list_done(&listing).output.unwrap();
    assert_eq!(out.lines().count(), 30);
    assert!(out.ends_with("p29"));
    assert_eq!(p.spawned(77).output.as_deref(), Some("Spawned process PID 77"));
    assert_eq!(p.killed(9).output.as_deref(), Some("Killed process 9"));
    assert_eq!(p.kill_failed(9, "nope").error.as_deref(), Some("Failed to kill PID 9: nope"));
}

#[test]
fn desktop_screenshots() {
    let d = DesktopTool::new();
    assert_eq!(d.prepare("{\"action\": \"screenshot\"}", 123).ok().as_deref(), Some("/tmp/llamachat-screenshot-123.png"));
    assert_eq!(d.prepare("{\"action\": \"screenshot\", \"path\": \"/x.png\"}", 1).ok().as_deref(), Some("/x.png"));
    assert_eq!(d.prepare("{\"action\": \"zoom\"}", 1).err().as_deref(), Some("Unknown desktop action: zoom"));
    let r = d.captured("/x.png");
    assert_eq!(r.media.as_deref(), Some("/x.png"));
    assert_eq!(r.output.as_deref(), Some("Screenshot saved: /x.png"));
    let cmds: Vec<String> = vec!["import".into(), "scrot".into()];
    let none = vec![Attempt::Missing, Attempt::Missing];
    assert_eq!(DesktopTool::linux_failure(&cmds, &none), "No screenshot tool found. Install: sudo apt install imagemagick");
    let failed = vec![Attempt::Failed { stderr: "oops".into() }, Attempt::Missing];
    assert_eq!(
        DesktopTool::linux_failure(&cmds, &failed),
        "Screenshot tools are installed but failed to capture. Is a desktop environment running?"
    );
    let headless = vec![Attempt::Failed { stderr: "cannot open DISPLAY".into() }, Attempt::Failed { stderr: "x".into() }];
    assert!(DesktopTool::linux_failure(&cmds, &headless).ends_with("Details: import present but no display available"));
    assert_eq!(DesktopTool::linux_backends("/p.png")[4].1.len(), 4);
}

#[test]
fn registry_policy() {
    assert!(needs_approval(None));
    assert!(needs_approval(Some(ToolSafety::Destructive)));
    assert!(!needs_approval(Some(ToolSafety::Write)));
    assert_eq!(gate(None, true, false), Gate::Unknown);
    assert_eq!(gate(Some(ToolSafety::Destructive), false, false), Gate::DestructiveDisabled);
    assert_eq!(gate(Some(ToolSafety::Destructive), true, true), Gate::WebLocked);
    assert_eq!(gate(Some(ToolSafety::ReadOnly), false, true), Gate::Run);
    assert_eq!(gate_refusal("zap", Gate::Unknown).unwrap().error.as_deref(), Some("Unknown tool: zap"));
    assert!(gate_refusal("x", Gate::Run).is_none());
    assert!(brings_web_content("read_page", true));
    assert!(!brings_web_content("read_page", false));
    assert!(!brings_web_content("shell", true));
    let infos = vec![shell().info()];
    let p = system_prompt(&infos);
    assert!(p.starts_with("You have access to the following tools."));
    assert!(p.contains("## shell\n"));
    assert!(p.contains("Parameters:\n  - command: string ((required)) The shell command to execute.\n"));
    assert!(p.ends_with("After tool results, continue your response.\n"));
}

#[test]
fn web_content_locks_destructive_tools_until_the_next_turn() {
    let mut g = Gatekeeper::new(true);
    assert_eq!(g.check(Some(ToolSafety::Destructive)), Gate::Run);
    g.record("web_search", false);
    assert_eq!(g.check(Some(ToolSafety::Destructive)), Gate::Run);
    g.record("read_page", true);
    assert_eq!(g.check(Some(ToolSafety::Destructive)), Gate::WebLocked);
    g.record("shell", true);
    g.set_destructive_allowed(true);
    assert_eq!(g.check(Some(ToolSafety::Destructive)), Gate::WebLocked);
    assert_eq!(g.check(Some(ToolSafety::ReadOnly)), Gate::Run);
    g.reset_web_context();
    assert_eq!(g.check(Some(ToolSafety::Destructive)), Gate::Run);
}

#[test]
fn a_command_past_the_timeout_says_so() {
    let shell = ShellTool::new(ToolLimits::default());
    let r = shell.timed_out(30);
    assert!(!r.ok);
    assert!(r.output.is_none());
    assert_eq!(r.error.as_deref(), Some("Command timed out after 30s"));
}
