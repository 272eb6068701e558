use llamachat::computer_use::{Action, ScrollDirection};
use llamachat::control::{
    key_for, keysym_for, mac_keycode, named_keysym, split_combo, wheel_button, Backend, Event, KeyCode, MouseButton,
    WinKeyName,
};

#[test]
fn key_names_map_per_backend() {
    assert_eq!(mac_keycode(" Return "), Some(36));
    assert_eq!(mac_keycode("cmd"), Some(55));
    assert_eq!(mac_keycode("S"), Some(1));
    assert_eq!(mac_keycode("f13"), None);
    assert_eq!(named_keysym("enter"), Some(0xff0d));
    assert_eq!(named_keysym("a"), Some(0x61));
    assert_eq!(named_keysym("é"), Some(0x0100_00e9));
    assert_eq!(named_keysym("nope"), None);
    assert_eq!(keysym_for('A'), 0x41);
    assert_eq!(key_for("win"), Some(WinKeyName::Meta));
    assert_eq!(key_for("Z"), Some(WinKeyName::Unicode('z')));
    assert_eq!(wheel_button(ScrollDirection::Left), 6);
}

#[test]
fn combinations_split_at_plus_and_minus() {
    assert_eq!(split_combo("ctrl+shift-t"), vec!["ctrl", "shift", "t"]);
    assert_eq!(split_combo("++a"), vec!["a"]);
    assert!(split_combo("").is_empty());
}

#[test]
fn a_combination_presses_and_releases_in_order() {
    let (ev, err) = Backend::Mac.plan(&Action::Key { combo: "cmd+shift+t".into() });
    assert!(err.is_none());
    assert_eq!(
        ev,
        vec![
            Event::KeyDown(KeyCode::Mac(55)),
            Event::KeyDown(KeyCode::Mac(56)),
            Event::KeyTap(KeyCode::Mac(17)),
            Event::KeyUp(KeyCode::Mac(56)),
            Event::KeyUp(KeyCode::Mac(55)),
        ]
    );
    let (ev, err) = Backend::X11.plan(&Action::Key { combo: "ctrl+hyper+c".into() });
    assert_eq!(ev, vec![Event::KeyDown(KeyCode::Sym(0xffe3))]);
    assert_eq!(err.as_deref(), Some("unknown modifier `hyper`"));
    let (_, err) = Backend::Windows.plan(&Action::Key { combo: "+".into() });
    assert_eq!(err.as_deref(), Some("empty key combination"));
}

#[test]
fn clicks_drags_and_scrolls() {
    let (ev, _) = Backend::X11.plan(&Action::DoubleClick { x: 5, y: 6 });
    assert_eq!(
        ev,
        vec![
            Event::MoveTo(5, 6),
            Event::Press(MouseButton::Left),
            Event::Release(MouseButton::Left),
            Event::Press(MouseButton::Left),
            Event::Release(MouseButton::Left),
        ]
    );
    let (ev, _) = Backend::Mac.plan(&Action::LeftClickDrag { from: (0, 0), to: (-25, 100) });
    assert_eq!(ev.len(), 13);
    assert_eq!(ev[2], Event::DragTo(-2, 10));
    assert_eq!(ev[11], Event::DragTo(-25, 100));
    assert_eq!(ev[12], Event::Release(MouseButton::Left));
    let (ev, _) = Backend::Windows.plan(&Action::Scroll { x: 1, y: 2, direction: ScrollDirection::Up, amount: 0 });
    assert_eq!(ev, vec![Event::MoveTo(1, 2), Event::Wheel(ScrollDirection::Up, 1)]);
    let (ev, _) = Backend::Mac.plan(&Action::Wait { millis: 99_000 });
    assert_eq!(ev, vec![Event::Pause(30_000)]);
    let (ev, err) = Backend::Mac.plan(&Action::HoldKey { combo: "shift".into(), millis: 20_000 });
    assert!(err.is_none());
    assert_eq!(ev[1], Event::Pause(10_000));
    let (ev, err) = Backend::Mac.plan(&Action::HoldKey { combo: "warp".into(), millis: 1 });
    assert!(ev.is_empty());
    assert_eq!(err.as_deref(), Some("unknown key `warp`"));
    assert!(Backend::Mac.plan(&Action::Screenshot).0.is_empty());
}
