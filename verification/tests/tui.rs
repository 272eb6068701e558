use llamachat::tui::{common_prefix, spinner, tier_badge, verb, PullJob, Theme};

#[test]
fn themes_have_labels_and_hints() {
    assert_eq!(Theme::Dark.label(), "Dark");
    assert_eq!(Theme::Auto.label(), "Auto (match terminal)");
    assert_eq!(Theme::Light.hint(), "Softer tones tuned for light terminals");
    assert_eq!(Theme::ALL.len(), 3);
    assert!(Theme::Light.is_light());
    assert!(!Theme::Auto.is_light());
}

#[test]
fn spinner_and_verbs_rotate() {
    assert_eq!(spinner(0), "⠋");
    assert_eq!(spinner(11), "⠙");
    assert_eq!(verb(0), "Ruminating");
    assert_eq!(verb(8), "Ruminating");
    assert_eq!(verb(9), "Grazing the silicon");
    assert_eq!(verb(9 * 24), "Ruminating");
    assert_eq!(verb(9 * 23), "Almost there");
}

#[test]
fn tier_badges_fill_up() {
    assert_eq!(tier_badge(0), "▄▁▁▁▁");
    assert_eq!(tier_badge(3), "▄▄▄▄▁");
    assert_eq!(tier_badge(4), "▄▄▄▄▄");
    assert_eq!(tier_badge(200), "▄▄▄▄▄");
}

#[test]
fn progress_lines_collapse_and_the_log_is_capped() {
    assert_eq!(common_prefix("pulling abc 10%", "pulling abc 20%"), 12);
    let mut job = PullJob::new("llama3".into(), "Llama 3".into());
    job.add_line("manifest".into());
    job.add_line("pulling abc 10%".into());
    job.add_line("pulling abc 20%".into());
    assert_eq!(job.lines(), vec!["manifest".to_string(), "pulling abc 20%".to_string()]);
    job.add_line("pulling abc done".into());
    assert_eq!(job.lines().len(), 3);
    job.add_line("verifying".into());
    for i in 0..50 {
        job.add_line(format!("line {i}"));
    }
    let lines = job.lines();
    assert_eq!(lines.len(), 40);
    assert_eq!(lines[39], "line 49");
    assert_eq!(lines[0], "line 10");
    let mut other = PullJob::new("t".into(), "T".into());
    other.add_line("pulling manifest".into());
    other.add_line("pulling abc 10%".into());
    assert_eq!(other.lines(), vec!["pulling abc 10%".to_string()]);
}

use llamachat::tui::{ollama_version, App, Effect, KeyCode, KeyPress, Overlay, RecRow, Screen as UiScreen, TABS};

fn key(code: KeyCode) -> KeyPress {
    KeyPress { code, ctrl: false }
}

fn rows(n: usize) -> Vec<RecRow> {
    (0..n).map(|i| RecRow { tag: format!("m{i}:latest"), display: format!("Model {i}") }).collect()
}

#[test]
fn onboarding_walks_splash_to_profiling() {
    let mut app = App::default();
    assert_eq!(app.screen, UiScreen::Splash);

    app.on_key(key(KeyCode::Enter));
    assert_eq!(app.screen, UiScreen::ThemePick);

    // Move down to the second theme and select it.
    app.on_key(key(KeyCode::Down));
    assert_eq!(app.theme_cursor, 1);
    assert_eq!(app.on_key(key(KeyCode::Enter)), Effect::StartProfiling);
    assert_eq!(app.screen, UiScreen::Profiling);
    assert_eq!(app.theme, Theme::ALL[1]);
}

#[test]
fn theme_cursor_is_clamped() {
    let mut app = App::default();
    app.screen = UiScreen::ThemePick;
    for _ in 0..10 {
        app.on_key(key(KeyCode::Down));
    }
    assert_eq!(app.theme_cursor, Theme::ALL.len() - 1);
    for _ in 0..10 {
        app.on_key(key(KeyCode::Up));
    }
    assert_eq!(app.theme_cursor, 0);
}

#[test]
fn main_tabs_wrap_and_cursor_clamps() {
    let mut app = App::default();
    app.screen = UiScreen::Main;
    app.recs = rows(7);
    assert!(!app.recs.is_empty(), "catalog should yield recommendations");

    // Tabs wrap in both directions.
    app.on_key(key(KeyCode::Tab));
    assert_eq!(app.tab, 1);
    app.on_key(key(KeyCode::BackTab));
    assert_eq!(app.tab, 0);
    app.on_key(key(KeyCode::BackTab));
    assert_eq!(app.tab, TABS.len() - 1);

    // Selection can't run off the ends of the list.
    app.tab = 0;
    for _ in 0..app.recs.len() + 5 {
        app.on_key(key(KeyCode::Down));
    }
    assert_eq!(app.rec_cursor, app.recs.len() - 1);
    app.on_key(key(KeyCode::Home));
    assert_eq!(app.rec_cursor, 0);
}

#[test]
fn quit_keys_work() {
    let mut app = App::default();
    app.screen = UiScreen::Main;
    app.on_key(key(KeyCode::Char('q')));
    assert!(app.should_quit);

    let mut app = App::default();
    app.on_key(KeyPress { code: KeyCode::Char('c'), ctrl: true });
    assert!(app.should_quit);
}

#[test]
fn activating_a_model_pulls_runs_or_explains() {
    let mut app = App::default();
    app.screen = UiScreen::Main;
    app.recs = rows(2);
    assert_eq!(app.on_key(key(KeyCode::Enter)), Effect::Activate { run_now: false });
    assert!(!app.activate(false, false));
    assert!(matches!(&app.overlay, Overlay::Result { ok: false, .. }));
    // Any key closes a failed result.
    app.on_key(key(KeyCode::Enter));
    assert!(matches!(app.overlay, Overlay::Closed));
    assert!(app.activate(false, true));
    assert!(matches!(&app.overlay, Overlay::Pulling(j) if j.tag == "m0:latest"));
    app.pull_finished(Ok(()));
    assert!(matches!(&app.overlay, Overlay::Result { ok: true, msg, .. } if msg == "Downloaded and ready to run."));
    assert_eq!(app.installed, vec!["m0:latest".to_string()]);
    app.on_key(key(KeyCode::Char('r')));
    assert_eq!(app.pending_run.as_deref(), Some("m0:latest"));
    app.ran("m0:latest".into());
    assert!(app.pending_run.is_none());
    assert_eq!(app.installed.len(), 1);
    // Installed models run straight away.
    assert!(!app.activate(false, true));
    assert_eq!(app.pending_run.as_deref(), Some("m0:latest"));
}

#[test]
fn profiling_ends_when_loaded_and_waited() {
    let mut app = App::default();
    app.screen = UiScreen::ThemePick;
    app.on_key(key(KeyCode::Enter));
    app.leave_profiling(true);
    assert_eq!(app.screen, UiScreen::Profiling);
    app.loaded(rows(1), vec![]);
    app.leave_profiling(false);
    assert_eq!(app.screen, UiScreen::Profiling);
    app.leave_profiling(true);
    assert_eq!(app.screen, UiScreen::Ollama);
    app.on_key(key(KeyCode::Char(' ')));
    assert_eq!(app.screen, UiScreen::Main);
}

#[test]
fn the_ollama_version_line_is_found() {
    assert_eq!(ollama_version("Warning: could not connect\nollama version is 0.5.7\n"), "0.5.7");
    assert_eq!(ollama_version("something else"), "installed");
    assert_eq!(ollama_version("ollama version is   \n"), "installed");
}
