use llamachat::computer::{
    app_not_opened, click_arg, find_shortcut, key_script, known_token, launch_command, norm, quit_image, quit_script,
    type_script, win_key, ComputerStep, ComputerTool, WinKey,
};
use llamachat::tools::ToolSafety;

fn prep(args: &str) -> (String, String) {
    let c = ComputerTool::new().prepare(args);
    (c.action, c.target)
}

#[test]
fn calls_are_normalised_forgivingly() {
    assert_eq!(prep(r#"{"action": "Open_App", "target": "Safari"}"#), ("open_app".into(), "Safari".into()));
    assert_eq!(prep(r#"{"action": "open_url {\"x\": 1}", "app": "x"}"#), ("open_url".into(), "x".into()));
    assert_eq!(prep(r#"{"action": "search", "q": "rust"}"#), ("search".into(), "rust".into()));
    // A URL crammed into the action is salvaged.
    let (a, t) = prep(r#"{"action": "open_url https://example.com/a b"}"#);
    assert_eq!(a, "open_url");
    assert_eq!(t, "https://example.com/a");
    assert_eq!(prep(r#"{}"#), ("".into(), "".into()));
}

#[test]
fn the_tool_describes_itself() {
    let t = ComputerTool::new();
    let info = t.info();
    assert_eq!(info.name, "computer");
    assert_eq!(info.safety, ToolSafety::Destructive);
    assert_eq!(info.parameters.len(), 4);
    assert_eq!(t.safety(), ToolSafety::Destructive);
}

#[test]
fn steps_follow_the_action() {
    let t = ComputerTool::new();
    let step = |a: &str, tg: &str, w: bool| {
        let c = t.prepare(&format!(r#"{{"action": "{a}", "target": "{tg}"}}"#));
        t.step(&c, Some(10), Some(20), w)
    };
    assert!(matches!(step("open_app", "", false), ComputerStep::Answer(r) if r.error.as_deref() == Some("Provide the app name in `target`.")));
    assert!(matches!(step("launch", "Notes", false), ComputerStep::OpenApp(n) if n == "Notes"));
    assert!(matches!(step("goto", "example.com", false), ComputerStep::OpenUrl(u) if u == "https://example.com"));
    assert!(matches!(step("url", "http://a.b", false), ComputerStep::OpenUrl(u) if u == "http://a.b"));
    assert!(matches!(step("url", "", true), ComputerStep::Answer(_)));
    assert!(matches!(step("google", "a b&c", false), ComputerStep::Search(u) if u == "https://www.google.com/search?q=a+b%26c"));
    assert!(matches!(step("type", "", false), ComputerStep::Type(t) if t.is_empty()));
    assert!(matches!(step("type", "", true), ComputerStep::Answer(_)));
    assert!(matches!(step("click", "", false), ComputerStep::Click(10, 20)));
    assert!(matches!(step("fly", "", false), ComputerStep::Answer(r)
        if r.error.as_deref() == Some("Unknown action \"fly\". Use: open_app, quit_app, open_url, search_web, type, key, click.")));
    let c = t.prepare(r#"{"action": "click"}"#);
    assert!(matches!(t.step(&c, None, Some(1), false), ComputerStep::Answer(_)));
    assert!(matches!(t.step(&c, Some(-1), Some(1), false), ComputerStep::Answer(_)));
}

#[test]
fn outcomes_are_reported() {
    let t = ComputerTool::new();
    let r = t.finish(ComputerStep::Click(3, 4), Ok(()), "", false);
    assert_eq!(r.output.as_deref(), Some("Clicked at 3, 4."));
    let r = t.finish(ComputerStep::Quit("Notes".into()), Ok(()), "", true);
    assert_eq!(r.output.as_deref(), Some("Asked Notes to close."));
    let r = t.finish(ComputerStep::OpenUrl("https://x".into()), Err("nope".into()), "", false);
    assert_eq!(r.error.as_deref(), Some("Couldn't open https://x: nope"));
    let r = t.finish(ComputerStep::Search("u".into()), Ok(()), "cats", false);
    assert_eq!(r.output.as_deref(), Some("Searched the web for \"cats\"."));
    let r = t.finish(ComputerStep::Key("Tab".into()), Err("x".into()), "", false);
    assert_eq!(r.error.as_deref(), Some("Key failed — grant Accessibility permission. (x)"));
    let r = app_not_opened("Foo", None, "", true);
    assert!(r.error.unwrap().contains("(checked the Start Menu and PATH)"));
    let r = app_not_opened("Foo", Some("FooBar"), "boom", false);
    assert_eq!(r.error.as_deref(), Some("Found \"FooBar\" but couldn't open it: boom"));
}

#[test]
fn applescript_is_escaped() {
    assert_eq!(quit_script("My \"App\""), "tell application \"My 'App'\" to quit");
    assert_eq!(type_script(r#"a\b"c"#), r#"tell application "System Events" to keystroke "a\\b\"c""#);
    assert_eq!(key_script("Return"), "tell application \"System Events\" to key code 36");
    assert_eq!(key_script("x\"y"), "tell application \"System Events\" to keystroke \"x\\\"y\"");
    assert_eq!(click_arg(5, 6), "c:5,6");
}

#[test]
fn windows_helpers() {
    assert_eq!(norm("Google Chrome!"), "googlechrome");
    assert_eq!(known_token("googlechrome"), Some("chrome"));
    assert_eq!(known_token("settings"), Some("ms-settings:"));
    assert_eq!(known_token("nope"), None);
    assert_eq!(quit_image("  notepad "), "notepad.exe");
    assert_eq!(quit_image("Code.EXE"), "Code.EXE");
    assert_eq!(launch_command("it's"), "Start-Process -FilePath 'it''s'");
    let names = vec!["Visual Studio Code".to_string(), "Code Helper".to_string(), "Visual Studio".to_string()];
    assert_eq!(find_shortcut("visualstudio", &names), Some(2));
    assert_eq!(find_shortcut("visual", &names), Some(0));
    assert_eq!(find_shortcut("x", &names), None);
    assert_eq!(find_shortcut("zzz", &names), None);
    assert_eq!(win_key(" Enter "), WinKey::Return);
    assert_eq!(win_key("a"), WinKey::Char('a'));
    assert_eq!(win_key("ctrl"), WinKey::Text("ctrl".into()));
}

#[test]
fn installed_apps_are_matched_loosely() {
    let stems: Vec<String> = vec!["Safari".into(), "Google Chrome".into(), "Utilities".into()];
    assert_eq!(llamachat::computer::find_app("chrome", &stems), Some(1));
    assert_eq!(llamachat::computer::find_app("Google Chrome Beta", &stems), Some(1));
    assert_eq!(llamachat::computer::find_app("Sa-fari", &stems), Some(0));
    assert_eq!(llamachat::computer::find_app("x", &stems), None);
    assert_eq!(llamachat::computer::find_app("Notes", &stems), None);
}
