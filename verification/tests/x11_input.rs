use llamachat::control::{x11_pixels_to_rgb, Keymap, KEY_PRESS, KEY_RELEASE};

fn sample_map() -> Keymap {
    // keycode 8: a / A, keycode 9: Shift_L, keycode 10: a again.
    Keymap::new(8, 2, vec![0x61, 0x41, 0xffe1, 0, 0x61, 0])
}

#[test]
fn the_first_key_producing_a_keysym_wins() {
    let m = sample_map();
    assert_eq!(m.lookup(0x61), Some((8, false)));
    assert_eq!(m.lookup(0x41), Some((8, true)));
    assert_eq!(m.lookup(0xffe1), Some((9, false)));
    assert_eq!(m.lookup(0x62), None);
    assert_eq!(m.lookup(0), None);
}

#[test]
fn a_map_without_keysyms_per_key_has_no_keys() {
    assert_eq!(Keymap::new(8, 0, vec![0x61]).lookup(0x61), None);
}

#[test]
fn shifted_keys_are_typed_inside_shift() {
    let m = sample_map();
    assert_eq!(
        m.tap(0x41).unwrap(),
        vec![(KEY_PRESS, 9), (KEY_PRESS, 8), (KEY_RELEASE, 8), (KEY_RELEASE, 9)]
    );
    assert_eq!(m.tap(0x61).unwrap(), vec![(KEY_PRESS, 8), (KEY_RELEASE, 8)]);
}

#[test]
fn a_keysym_no_key_produces_is_refused_in_hex() {
    let m = sample_map();
    assert_eq!(m.tap(0x1f600).unwrap_err(), "no key on this layout produces keysym 0x1f600");
}

#[test]
fn without_a_shift_key_a_shifted_key_is_tapped_alone() {
    let m = Keymap::new(8, 2, vec![0x61, 0x41]);
    assert_eq!(m.tap(0x41).unwrap(), vec![(KEY_PRESS, 8), (KEY_RELEASE, 8)]);
}

#[test]
fn x_pixels_turn_blue_first_into_rgb() {
    assert_eq!(x11_pixels_to_rgb(&vec![1, 2, 3, 0, 4, 5, 6, 0], 2, 1).unwrap(), vec![3, 2, 1, 6, 5, 4]);
    assert_eq!(x11_pixels_to_rgb(&vec![1, 2, 3, 4, 5, 6], 2, 1).unwrap(), vec![3, 2, 1, 6, 5, 4]);
}

#[test]
fn short_screen_data_is_refused() {
    assert_eq!(x11_pixels_to_rgb(&vec![1, 2, 3, 4, 5], 2, 1).unwrap_err(), "screen data too short: 5 bytes for 2x1");
}
