use llamachat::computer_use::{ComputerUseTool, CuStep, VirtualDisplay};

#[test]
fn a_4k_display_fits_into_the_virtual_space_keeping_aspect() {
    let d = VirtualDisplay::fit(3840, 2160);
    assert_eq!((d.width, d.height), (1024, 576));
    assert!(!d.is_identity());
}

#[test]
fn small_displays_map_one_to_one() {
    let d = VirtualDisplay::fit(800, 600);
    assert_eq!((d.width, d.height), (800, 600));
    assert!(d.is_identity());
    assert_eq!(d.to_real(400, 300), (400, 300));
}

#[test]
fn corners_map_inside_the_real_screen() {
    let d = VirtualDisplay::fit(3840, 2160);
    assert_eq!(d.to_real(0, 0), (1, 1));
    let (x, y) = d.to_real(d.width as i32 - 1, d.height as i32 - 1);
    assert!(x < 3840 && y < 2160, "bottom-right {x},{y} must stay on screen");
    assert!(x > 3800 && y > 2140, "bottom-right {x},{y} should be near the corner");
}

#[test]
fn a_centre_click_lands_in_the_centre() {
    let d = VirtualDisplay::fit(2560, 1440);
    let (x, y) = d.to_real(d.width as i32 / 2, d.height as i32 / 2);
    assert!((x - 1280).abs() <= 2, "x was {x}");
    assert!((y - 720).abs() <= 2, "y was {y}");
}

#[test]
fn virtual_and_real_round_trip_within_a_pixel_block() {
    let d = VirtualDisplay::fit(1920, 1080);
    for (vx, vy) in [(0, 0), (10, 10), (511, 287), (1023, 575)] {
        let (rx, ry) = d.to_real(vx, vy);
        let (bx, by) = d.to_virtual(rx, ry);
        assert!((bx - vx).abs() <= 1 && (by - vy).abs() <= 1, "{vx},{vy} -> {rx},{ry} -> {bx},{by}");
    }
}

#[test]
fn zero_sized_screens_still_give_a_usable_display() {
    let d = VirtualDisplay::fit(0, 0);
    assert!(d.width >= 1 && d.height >= 1);
}

#[test]
fn the_long_edge_is_capped_at_the_virtual_maximum() {
    let d = VirtualDisplay::fit(2000, 4000);
    assert_eq!(d.height, 1024);
    assert_eq!(d.width, 512);
    assert_eq!(d.real_width, 2000);
    assert_eq!(d.real_height, 4000);
}

use llamachat::computer_use::{tool_declaration, Action, ScrollDirection};

fn p(j: &str) -> Action {
    Action::parse(j, None).unwrap()
}

#[test]
fn parses_the_anthropic_action_shapes() {
    assert_eq!(p(r#"{"action": "screenshot"}"#), Action::Screenshot);
    assert_eq!(
        p(r#"{"action": "left_click", "coordinate": [500, 300]}"#),
        Action::LeftClick { x: 500, y: 300 }
    );
    assert_eq!(
        p(r#"{"action": "type", "text": "Hello, world!"}"#),
        Action::Type { text: "Hello, world!".into() }
    );
    assert_eq!(p(r#"{"action": "key", "text": "ctrl+s"}"#), Action::Key { combo: "ctrl+s".into() });
    assert_eq!(
        p(r#"{"action": "scroll", "coordinate": [500, 400], "scroll_direction": "down", "scroll_amount": 3}"#),
        Action::Scroll { x: 500, y: 400, direction: ScrollDirection::Down, amount: 3 }
    );
    assert_eq!(
        p(r#"{"action": "left_click_drag", "start_coordinate": [10, 20], "coordinate": [30, 40]}"#),
        Action::LeftClickDrag { from: (10, 20), to: (30, 40) }
    );
    assert_eq!(p(r#"{"action": "zoom", "region": [0, 0, 100, 80]}"#), Action::Zoom { region: (0, 0, 100, 80) });
}

#[test]
fn unknown_actions_are_refused_not_guessed() {
    assert!(Action::parse(r#"{"action": "self_destruct"}"#, None).is_err());
    assert!(Action::parse("{}", None).is_err());
    // A click with no coordinate must fail rather than default to 0,0.
    assert!(Action::parse(r#"{"action": "left_click"}"#, None).is_err());
}

#[test]
fn only_looking_is_read_only() {
    assert!(Action::Screenshot.is_read_only());
    assert!(Action::Zoom { region: (0, 0, 1, 1) }.is_read_only());
    assert!(!Action::LeftClick { x: 1, y: 1 }.is_read_only());
    assert!(!Action::Type { text: "rm -rf".into() }.is_read_only());
}

#[test]
fn actions_are_rescaled_before_execution() {
    let d = VirtualDisplay::fit(2560, 1440);
    let scaled = Action::LeftClick { x: 512, y: 288 }.to_real(&d);
    match scaled {
        Action::LeftClick { x, y } => {
            assert!((x - 1280).abs() <= 3, "x {x}");
            assert!((y - 720).abs() <= 3, "y {y}");
        }
        other => panic!("wrong variant: {other:?}"),
    }
    // Actions without coordinates pass through untouched.
    assert_eq!(Action::Screenshot.to_real(&d), Action::Screenshot);
}

#[test]
fn the_declaration_reports_the_virtual_size_not_the_real_one() {
    let d = VirtualDisplay::fit(3840, 2160);
    let decl: serde_json::Value = serde_json::from_str(&tool_declaration(&d)).unwrap();
    assert_eq!(decl["display_width_px"], 1024);
    assert_eq!(decl["display_height_px"], 576);
    assert_eq!(decl["name"], "computer");
}

#[test]
fn forgiving_aliases_and_errors_are_exact() {
    assert_eq!(p(r#"{"action": " Click ", "x": 5, "y": 6}"#), Action::LeftClick { x: 5, y: 6 });
    assert_eq!(p(r#"{"action": "press", "key": "Return"}"#), Action::Key { combo: "Return".into() });
    assert_eq!(
        Action::parse(r#"{"action": "mouse_move"}"#, None),
        Err("`mouse_move` needs a `coordinate` of [x, y]".to_string())
    );
    assert_eq!(Action::parse(r#"{"action": "Fly"}"#, None), Err("unknown action `fly`".to_string()));
    assert_eq!(Action::parse(r#"{"x": 1}"#, None), Err("no `action` given".to_string()));
    assert_eq!(
        Action::parse(r#"{"action": "left_click_drag", "coordinate": [1, 2]}"#, None),
        Err("`left_click_drag` needs `start_coordinate`".to_string())
    );
    assert_eq!(Action::parse(r#"{"action": "type"}"#, None), Err("`type` needs `text`".to_string()));
    assert_eq!(Action::parse(r#"{"action": "zoom"}"#, None), Err("`zoom` needs a `region`".to_string()));
    assert_eq!(
        Action::parse(r#"{"action": "zoom", "region": [1, 2]}"#, None),
        Err("`zoom` region must be [x1, y1, x2, y2]".to_string())
    );
}

#[test]
fn durations_default_and_wait_is_capped() {
    assert_eq!(p(r#"{"action": "wait"}"#), Action::Wait { millis: 1000 });
    assert_eq!(Action::parse(r#"{"action": "wait"}"#, Some(90_000)).unwrap(), Action::Wait { millis: 30_000 });
    assert_eq!(
        Action::parse(r#"{"action": "hold_key", "text": "shift"}"#, Some(1500)).unwrap(),
        Action::HoldKey { combo: "shift".into(), millis: 1500 }
    );
    assert_eq!(
        p(r#"{"action": "scroll", "coordinate": [1, 2], "scroll_direction": "LEFT"}"#),
        Action::Scroll { x: 1, y: 2, direction: ScrollDirection::Left, amount: 3 }
    );
}

#[test]
fn descriptions_read_in_model_coordinates() {
    assert_eq!(Action::LeftClick { x: 500, y: -3 }.describe(), "click at 500, -3");
    assert_eq!(Action::HoldKey { combo: "shift".into(), millis: 1500 }.describe(), "hold shift for 1.5s");
    assert_eq!(Action::Wait { millis: 2000 }.describe(), "wait 2s");
    assert_eq!(Action::Wait { millis: 250 }.describe(), "wait 0.25s");
    assert_eq!(
        Action::Scroll { x: 1, y: 2, direction: ScrollDirection::Down, amount: 3 }.describe(),
        "scroll down 3 at 1, 2"
    );
    assert_eq!(Action::Type { text: "hi".into() }.describe(), "type \u{201c}hi\u{201d}");
    let long = "x".repeat(41);
    assert_eq!(Action::Type { text: long }.describe(), format!("type \u{201c}{}…\u{201d}", "x".repeat(40)));
    assert_eq!(
        Action::LeftClickDrag { from: (1, 2), to: (3, 4) }.describe(),
        "drag from 1, 2 to 3, 4"
    );
    assert_eq!(Action::Zoom { region: (0, 0, 10, 20) }.describe(), "zoom into 0, 0 – 10, 20");
}

#[test]
fn the_computer_tool_describes_the_virtual_screen() {
    let d = VirtualDisplay::fit(3840, 2160);
    let tool = ComputerUseTool::new(d);
    let info = tool.info();
    assert_eq!(info.name, "computer");
    let size = format!("{}x{}", d.width, d.height);
    assert!(info.description.contains(&format!("The screen is {size}. All coordinates")));
    assert_eq!(info.parameters.len(), 5);
    assert_eq!(info.parameters[1].description, format!("[x, y] within {size}."));
}

#[test]
fn the_computer_tool_rescales_once_and_reports_in_model_space() {
    let d = VirtualDisplay::fit(3840, 2160);
    let tool = ComputerUseTool::new(d);
    match tool.prepare(r#"{"action":"left_click","coordinate":[100,50]}"#, None) {
        CuStep::Act { action, described } => {
            let (x, y) = d.to_real(100, 50);
            assert_eq!(action, Action::LeftClick { x, y });
            assert_eq!(described, "click at 100, 50");
        }
        _ => panic!("expected an action"),
    }
    assert!(matches!(tool.prepare(r#"{"action":"cursor_position"}"#, None), CuStep::Cursor));
    match tool.prepare(r#"{"action":"fly"}"#, None) {
        CuStep::Answer(r) => assert!(!r.ok),
        _ => panic!("expected a refusal"),
    }
    let (rx, ry) = d.to_real(100, 50);
    let r = tool.cursor_done(Ok((rx, ry)));
    assert_eq!(r.output.as_deref(), Some("cursor is at 100, 50"));
    let r = tool.act_failed("type text", "no display");
    assert_eq!(r.error.as_deref(), Some("couldn't type text: no display"));
    let r = tool.act_done("take a screenshot", Ok("/tmp/s.png".to_string()));
    assert_eq!((r.output.as_deref(), r.media.as_deref()), (Some("did: take a screenshot"), Some("/tmp/s.png")));
    let r = tool.act_done("take a screenshot", Err("no X".to_string()));
    assert_eq!(r.output.as_deref(), Some("did: take a screenshot (couldn't capture the screen afterwards: no X)"));
    assert!(r.ok && r.media.is_none());
}

#[test]
fn actions_without_points_keep_on_any_display() {
    let d = VirtualDisplay { real_width: u32::MAX, real_height: 0, width: 0, height: 0 };
    assert_eq!(Action::Screenshot.to_real(&d), Action::Screenshot);
    assert_eq!(Action::Type { text: "hi".into() }.to_real(&d), Action::Type { text: "hi".into() });
    assert_eq!(Action::Wait { millis: 500 }.to_real(&d), Action::Wait { millis: 500 });
}
