//! The hands: which input events carry out an action.
//!
//! [`crate::computer_use`] decides *what* to do and in which coordinate
//! space. Posting the events needs a real display (X11's XTEST, macOS Core
//! Graphics, Windows input); this module decides, for each backend, which
//! events an action becomes and in what order, so the backends only post
//! them.

use vstd::prelude::*;
use crate::computer_use::{Action, ActionView, ScrollDirection};
use crate::text::{chars_of, decimal, lower, lower_vec, push_char, push_decimal, push_range, push_str, str_eq, string_of, string_of_range, trim, trimmed};
use crate::web::{hex_digit, hex_lower};

verus! {

/// What a backend reports about the screen it drives.
#[derive(Debug, Clone, Copy, PartialEq, Eq, Structural)]
pub struct Screen {
    pub width: u32,
    pub height: u32,
}

/// The desktop backends.
#[derive(Debug, Clone, Copy, PartialEq, Eq, Structural)]
pub enum Backend {
    X11,
    Mac,
    Windows,
}

#[derive(Debug, Clone, Copy, PartialEq, Eq, Structural)]
pub enum MouseButton {
    Left,
    Right,
    Middle,
}

/// A named key on Windows.
#[derive(Debug, Clone, Copy, PartialEq, Eq, Structural)]
pub enum WinKeyName {
    Return,
    Tab,
    Space,
    Escape,
    Backspace,
    Left,
    Right,
    Up,
    Down,
    Home,
    End,
    PageUp,
    PageDown,
    Control,
    Alt,
    Shift,
    Meta,
    Unicode(char),
}

/// A key as a backend knows it: a macOS virtual key code, an X11 keysym, or
/// a Windows key.
#[derive(Debug, Clone, Copy, PartialEq, Eq, Structural)]
pub enum KeyCode {
    Mac(u16),
    Sym(u32),
    Win(WinKeyName),
}

/// One input event.
#[derive(Debug, Clone, Copy, PartialEq, Eq, Structural)]
pub enum Event {
    MoveTo(i32, i32),
    /// Press a button where the pointer is.
    Press(MouseButton),
    Release(MouseButton),
    /// Move with the left button held.
    DragTo(i32, i32),
    /// Scroll `n` notches.
    Wheel(ScrollDirection, i32),
    KeyDown(KeyCode),
    /// Press and release.
    KeyTap(KeyCode),
    KeyUp(KeyCode),
    /// Wait this many milliseconds.
    Pause(u64),
    /// Type the action's text.
    TypeText,
}

/// X11 wheel buttons: 4/5 scroll up/down, 6/7 left/right.
pub open spec fn wheel_button_of(d: ScrollDirection) -> u8 {
    match d {
        ScrollDirection::Up => 4,
        ScrollDirection::Down => 5,
        ScrollDirection::Left => 6,
        ScrollDirection::Right => 7,
    }
}

/// X11 pointer buttons 4 to 7, which the X server reports for the wheel.
pub const X11_WHEEL_UP: u8 = 4;
pub const X11_WHEEL_DOWN: u8 = 5;
pub const X11_WHEEL_LEFT: u8 = 6;
pub const X11_WHEEL_RIGHT: u8 = 7;

/// A scroll goes to the X11 wheel button of its direction: up 4, down 5,
/// left 6, right 7; so each direction has its own button, and each pair of
/// opposite directions differs by one.
pub proof fn lemma_wheel_buttons_follow_x11(d: ScrollDirection)
    ensures
        d == ScrollDirection::Up ==> wheel_button_of(d) == X11_WHEEL_UP,
        d == ScrollDirection::Down ==> wheel_button_of(d) == X11_WHEEL_DOWN,
        d == ScrollDirection::Left ==> wheel_button_of(d) == X11_WHEEL_LEFT,
        d == ScrollDirection::Right ==> wheel_button_of(d) == X11_WHEEL_RIGHT,
        4 <= wheel_button_of(d) <= 7,
        wheel_button_of(ScrollDirection::Down) == wheel_button_of(ScrollDirection::Up) + 1,
        wheel_button_of(ScrollDirection::Right) == wheel_button_of(ScrollDirection::Left) + 1,
{
}

pub fn wheel_button(d: ScrollDirection) -> (r: u8)
    ensures
        r == wheel_button_of(d),
        d == ScrollDirection::Up ==> r == X11_WHEEL_UP,
        d == ScrollDirection::Down ==> r == X11_WHEEL_DOWN,
        d == ScrollDirection::Left ==> r == X11_WHEEL_LEFT,
        d == ScrollDirection::Right ==> r == X11_WHEEL_RIGHT,
{
    match d {
        ScrollDirection::Up => 4,
        ScrollDirection::Down => 5,
        ScrollDirection::Left => 6,
        ScrollDirection::Right => 7,
    }
}

// ── Key names ──────────────────────────────────────────────────────────────

/// macOS virtual key codes (US-layout positions) for the keys that have
/// names, by the trimmed, lowercased name.
pub open spec fn mac_code_of(n: Seq<char>) -> Option<u16> {
    if n == "return"@ || n == "enter"@ { Some(36) }
    else if n == "tab"@ { Some(48) }
    else if n == "space"@ { Some(49) }
    else if n == "delete"@ || n == "backspace"@ { Some(51) }
    else if n == "escape"@ || n == "esc"@ { Some(53) }
    else if n == "left"@ { Some(123) }
    else if n == "right"@ { Some(124) }
    else if n == "down"@ { Some(125) }
    else if n == "up"@ { Some(126) }
    else if n == "home"@ { Some(115) }
    else if n == "end"@ { Some(119) }
    else if n == "page_up"@ || n == "pageup"@ { Some(116) }
    else if n == "page_down"@ || n == "pagedown"@ { Some(121) }
    else if n == "cmd"@ || n == "command"@ || n == "super"@ || n == "meta"@ { Some(55) }
    else if n == "shift"@ { Some(56) }
    else if n == "alt"@ || n == "option"@ { Some(58) }
    else if n == "ctrl"@ || n == "control"@ { Some(59) }
    else if n.len() == 1 { mac_letter(n[0]) }
    else { None }
}

/// macOS key codes of the letters.
pub open spec fn mac_letter(c: char) -> Option<u16> {
    if c == 'a' { Some(0) } else if c == 's' { Some(1) } else if c == 'd' { Some(2) }
    else if c == 'f' { Some(3) } else if c == 'h' { Some(4) } else if c == 'g' { Some(5) }
    else if c == 'z' { Some(6) } else if c == 'x' { Some(7) } else if c == 'c' { Some(8) }
    else if c == 'v' { Some(9) } else if c == 'b' { Some(11) } else if c == 'q' { Some(12) }
    else if c == 'w' { Some(13) } else if c == 'e' { Some(14) } else if c == 'r' { Some(15) }
    else if c == 'y' { Some(16) } else if c == 't' { Some(17) } else if c == 'o' { Some(31) }
    else if c == 'u' { Some(32) } else if c == 'i' { Some(34) } else if c == 'p' { Some(35) }
    else if c == 'l' { Some(37) } else if c == 'j' { Some(38) } else if c == 'k' { Some(40) }
    else if c == 'n' { Some(45) } else if c == 'm' { Some(46) }
    else { None }
}

fn mac_letter_exec(c: char) -> (r: Option<u16>)
    ensures
        r == mac_letter(c),
{
    if c == 'a' { Some(0) } else if c == 's' { Some(1) } else if c == 'd' { Some(2) }
    else if c == 'f' { Some(3) } else if c == 'h' { Some(4) } else if c == 'g' { Some(5) }
    else if c == 'z' { Some(6) } else if c == 'x' { Some(7) } else if c == 'c' { Some(8) }
    else if c == 'v' { Some(9) } else if c == 'b' { Some(11) } else if c == 'q' { Some(12) }
    else if c == 'w' { Some(13) } else if c == 'e' { Some(14) } else if c == 'r' { Some(15) }
    else if c == 'y' { Some(16) } else if c == 't' { Some(17) } else if c == 'o' { Some(31) }
    else if c == 'u' { Some(32) } else if c == 'i' { Some(34) } else if c == 'p' { Some(35) }
    else if c == 'l' { Some(37) } else if c == 'j' { Some(38) } else if c == 'k' { Some(40) }
    else if c == 'n' { Some(45) } else if c == 'm' { Some(46) }
    else { None }
}

/// A key name as the backends match it: trimmed and ASCII-lowercased.
pub open spec fn key_name(name: Seq<char>) -> Seq<char> {
    lower(trim(name))
}

fn key_name_of(name: &str) -> (r: String)
    ensures
        r@ == key_name(name@),
{
    let t = trimmed(name);
    string_of(&lower_vec(&chars_of(t.as_str())))
}

/// The macOS key code for a key name.
pub fn mac_keycode(name: &str) -> (r: Option<u16>)
    ensures
        r == mac_code_of(key_name(name@)),
{
    let n = key_name_of(name);
    let s = n.as_str();
    if str_eq(s, "return") || str_eq(s, "enter") { Some(36) }
    else if str_eq(s, "tab") { Some(48) }
    else if str_eq(s, "space") { Some(49) }
    else if str_eq(s, "delete") || str_eq(s, "backspace") { Some(51) }
    else if str_eq(s, "escape") || str_eq(s, "esc") { Some(53) }
    else if str_eq(s, "left") { Some(123) }
    else if str_eq(s, "right") { Some(124) }
    else if str_eq(s, "down") { Some(125) }
    else if str_eq(s, "up") { Some(126) }
    else if str_eq(s, "home") { Some(115) }
    else if str_eq(s, "end") { Some(119) }
    else if str_eq(s, "page_up") || str_eq(s, "pageup") { Some(116) }
    else if str_eq(s, "page_down") || str_eq(s, "pagedown") { Some(121) }
    else if str_eq(s, "cmd") || str_eq(s, "command") || str_eq(s, "super") || str_eq(s, "meta") { Some(55) }
    else if str_eq(s, "shift") { Some(56) }
    else if str_eq(s, "alt") || str_eq(s, "option") { Some(58) }
    else if str_eq(s, "ctrl") || str_eq(s, "control") { Some(59) }
    else {
        let v = chars_of(s);
        if v.len() == 1 { mac_letter_exec(v[0]) } else { None }
    }
}

/// The X11 keysym of a character: ASCII maps to itself, anything else into
/// the Unicode keysym range.
pub open spec fn keysym_of(c: char) -> u32 {
    if (c as u32) < 0x80 { c as u32 } else { (c as u32 + 0x0100_0000) as u32 }
}

pub fn keysym_for(c: char) -> (r: u32)
    ensures
        r == keysym_of(c),
{
    let u = c as u32;
    if u < 0x80 { u } else { u + 0x0100_0000 }
}

/// The X11 keysym for a key name: the named keys, or the keysym of a single
/// character.
pub open spec fn sym_of(n: Seq<char>) -> Option<u32> {
    if n == "return"@ || n == "enter"@ { Some(0xff0d) }
    else if n == "tab"@ { Some(0xff09) }
    else if n == "space"@ { Some(0x0020) }
    else if n == "escape"@ || n == "esc"@ { Some(0xff1b) }
    else if n == "backspace"@ { Some(0xff08) }
    else if n == "delete"@ { Some(0xffff) }
    else if n == "home"@ { Some(0xff50) }
    else if n == "end"@ { Some(0xff57) }
    else if n == "page_up"@ || n == "pageup"@ { Some(0xff55) }
    else if n == "page_down"@ || n == "pagedown"@ { Some(0xff56) }
    else if n == "left"@ { Some(0xff51) }
    else if n == "up"@ { Some(0xff52) }
    else if n == "right"@ { Some(0xff53) }
    else if n == "down"@ { Some(0xff54) }
    else if n == "ctrl"@ || n == "control"@ { Some(0xffe3) }
    else if n == "alt"@ { Some(0xffe9) }
    else if n == "shift"@ { Some(0xffe1) }
    else if n == "super"@ || n == "cmd"@ || n == "meta"@ { Some(0xffeb) }
    else if n.len() == 1 { Some(keysym_of(n[0])) }
    else { None }
}

pub fn named_keysym(name: &str) -> (r: Option<u32>)
    ensures
        r == sym_of(key_name(name@)),
{
    let n = key_name_of(name);
    let s = n.as_str();
    if str_eq(s, "return") || str_eq(s, "enter") { Some(0xff0d) }
    else if str_eq(s, "tab") { Some(0xff09) }
    else if str_eq(s, "space") { Some(0x0020) }
    else if str_eq(s, "escape") || str_eq(s, "esc") { Some(0xff1b) }
    else if str_eq(s, "backspace") { Some(0xff08) }
    else if str_eq(s, "delete") { Some(0xffff) }
    else if str_eq(s, "home") { Some(0xff50) }
    else if str_eq(s, "end") { Some(0xff57) }
    else if str_eq(s, "page_up") || str_eq(s, "pageup") { Some(0xff55) }
    else if str_eq(s, "page_down") || str_eq(s, "pagedown") { Some(0xff56) }
    else if str_eq(s, "left") { Some(0xff51) }
    else if str_eq(s, "up") { Some(0xff52) }
    else if str_eq(s, "right") { Some(0xff53) }
    else if str_eq(s, "down") { Some(0xff54) }
    else if str_eq(s, "ctrl") || str_eq(s, "control") { Some(0xffe3) }
    else if str_eq(s, "alt") { Some(0xffe9) }
    else if str_eq(s, "shift") { Some(0xffe1) }
    else if str_eq(s, "super") || str_eq(s, "cmd") || str_eq(s, "meta") { Some(0xffeb) }
    else {
        let v = chars_of(s);
        if v.len() == 1 { Some(keysym_for(v[0])) } else { None }
    }
}

/// The Windows key for a key name: the named keys, or a single character.
pub open spec fn win_of(n: Seq<char>) -> Option<WinKeyName> {
    if n == "return"@ || n == "enter"@ { Some(WinKeyName::Return) }
    else if n == "tab"@ { Some(WinKeyName::Tab) }
    else if n == "space"@ { Some(WinKeyName::Space) }
    else if n == "escape"@ || n == "esc"@ { Some(WinKeyName::Escape) }
    else if n == "delete"@ || n == "backspace"@ { Some(WinKeyName::Backspace) }
    else if n == "left"@ { Some(WinKeyName::Left) }
    else if n == "right"@ { Some(WinKeyName::Right) }
    else if n == "up"@ { Some(WinKeyName::Up) }
    else if n == "down"@ { Some(WinKeyName::Down) }
    else if n == "home"@ { Some(WinKeyName::Home) }
    else if n == "end"@ { Some(WinKeyName::End) }
    else if n == "page_up"@ || n == "pageup"@ { Some(WinKeyName::PageUp) }
    else if n == "page_down"@ || n == "pagedown"@ { Some(WinKeyName::PageDown) }
    else if n == "ctrl"@ || n == "control"@ { Some(WinKeyName::Control) }
    else if n == "alt"@ { Some(WinKeyName::Alt) }
    else if n == "shift"@ { Some(WinKeyName::Shift) }
    else if n == "super"@ || n == "cmd"@ || n == "meta"@ || n == "win"@ { Some(WinKeyName::Meta) }
    else if n.len() == 1 { Some(WinKeyName::Unicode(n[0])) }
    else { None }
}

pub fn key_for(name: &str) -> (r: Option<WinKeyName>)
    ensures
        r == win_of(key_name(name@)),
{
    let n = key_name_of(name);
    let s = n.as_str();
    if str_eq(s, "return") || str_eq(s, "enter") { Some(WinKeyName::Return) }
    else if str_eq(s, "tab") { Some(WinKeyName::Tab) }
    else if str_eq(s, "space") { Some(WinKeyName::Space) }
    else if str_eq(s, "escape") || str_eq(s, "esc") { Some(WinKeyName::Escape) }
    else if str_eq(s, "delete") || str_eq(s, "backspace") { Some(WinKeyName::Backspace) }
    else if str_eq(s, "left") { Some(WinKeyName::Left) }
    else if str_eq(s, "right") { Some(WinKeyName::Right) }
    else if str_eq(s, "up") { Some(WinKeyName::Up) }
    else if str_eq(s, "down") { Some(WinKeyName::Down) }
    else if str_eq(s, "home") { Some(WinKeyName::Home) }
    else if str_eq(s, "end") { Some(WinKeyName::End) }
    else if str_eq(s, "page_up") || str_eq(s, "pageup") { Some(WinKeyName::PageUp) }
    else if str_eq(s, "page_down") || str_eq(s, "pagedown") { Some(WinKeyName::PageDown) }
    else if str_eq(s, "ctrl") || str_eq(s, "control") { Some(WinKeyName::Control) }
    else if str_eq(s, "alt") { Some(WinKeyName::Alt) }
    else if str_eq(s, "shift") { Some(WinKeyName::Shift) }
    else if str_eq(s, "super") || str_eq(s, "cmd") || str_eq(s, "meta") || str_eq(s, "win") { Some(WinKeyName::Meta) }
    else {
        let v = chars_of(s);
        if v.len() == 1 { Some(WinKeyName::Unicode(v[0])) } else { None }
    }
}

/// A key name looked up for a backend.
pub open spec fn code_of(b: Backend, name: Seq<char>) -> Option<KeyCode> {
    let n = key_name(name);
    match b {
        Backend::Mac => match mac_code_of(n) { Some(c) => Some(KeyCode::Mac(c)), None => None },
        Backend::X11 => match sym_of(n) { Some(s) => Some(KeyCode::Sym(s)), None => None },
        Backend::Windows => match win_of(n) { Some(k) => Some(KeyCode::Win(k)), None => None },
    }
}

pub fn key_code(b: Backend, name: &str) -> (r: Option<KeyCode>)
    ensures
        r == code_of(b, name@),
{
    match b {
        Backend::Mac => match mac_keycode(name) { Some(c) => Some(KeyCode::Mac(c)), None => None },
        Backend::X11 => match named_keysym(name) { Some(s) => Some(KeyCode::Sym(s)), None => None },
        Backend::Windows => match key_for(name) { Some(k) => Some(KeyCode::Win(k)), None => None },
    }
}

// ── Key combinations ───────────────────────────────────────────────────────

/// Splitting at `+` and `-`: the parts finished so far and the one being
/// read.
pub open spec fn split_state(s: Seq<char>) -> (Seq<Seq<char>>, Seq<char>)
    decreases s.len(),
{
    if s.len() == 0 {
        (Seq::empty(), Seq::empty())
    } else {
        let (ps, cur) = split_state(s.drop_last());
        let c = s.last();
        if c == '+' || c == '-' {
            (if cur.len() > 0 { ps.push(cur) } else { ps }, Seq::empty())
        } else {
            (ps, cur.push(c))
        }
    }
}

/// The parts of a combination like `ctrl+shift+t`: split at `+` and `-`,
/// empty parts dropped.
pub open spec fn combo_parts(s: Seq<char>) -> Seq<Seq<char>> {
    let (ps, cur) = split_state(s);
    if cur.len() > 0 { ps.push(cur) } else { ps }
}

pub fn split_combo(combo: &str) -> (r: Vec<String>)
    ensures
        r@.map_values(|p: String| p@) == combo_parts(combo@),
{
    let v = chars_of(combo);
    let mut parts: Vec<String> = Vec::new();
    let mut start: usize = 0;
    let mut i: usize = 0;
    while i < v.len()
        invariant
            i <= v@.len(),
            v@ == combo@,
            start <= i,
            split_state(v@.take(i as int)) == (parts@.map_values(|p: String| p@), v@.subrange(start as int, i as int)),
        decreases v@.len() - i,
    {
        let ghost before = parts@.map_values(|p: String| p@);
        assert(v@.take(i + 1).drop_last() =~= v@.take(i as int));
        if v[i] == '+' || v[i] == '-' {
            if start < i {
                let piece = string_of_range(&v, start, i);
                parts.push(piece);
                assert(parts@.map_values(|p: String| p@) =~= before.push(v@.subrange(start as int, i as int)));
            }
            start = i + 1;
            i = i + 1;
            assert(v@.subrange(start as int, i as int) =~= Seq::<char>::empty());
        } else {
            i = i + 1;
            assert(v@.subrange(start as int, i as int) =~= v@.subrange(start as int, i - 1).push(v@[i - 1]));
        }
    }
    assert(v@.take(v@.len() as int) =~= v@);
    if start < v.len() {
        let ghost before = parts@.map_values(|p: String| p@);
        let piece = string_of_range(&v, start, v.len());
        parts.push(piece);
        assert(parts@.map_values(|p: String| p@) =~= before.push(v@.subrange(start as int, v@.len() as int)));
    }
    parts
}

/// Pressing the modifiers in order: the events, the keys held, and the
/// error at the first modifier the backend does not know (the ones before it
/// stay held).
pub open spec fn mods_down(b: Backend, mods: Seq<Seq<char>>) -> (Seq<Event>, Seq<KeyCode>, Option<Seq<char>>)
    decreases mods.len(),
{
    if mods.len() == 0 {
        (Seq::empty(), Seq::empty(), None)
    } else {
        let (ev, held, err) = mods_down(b, mods.drop_last());
        if err is Some {
            (ev, held, err)
        } else {
            match code_of(b, mods.last()) {
                None => (ev, held, Some("unknown modifier `"@ + mods.last() + "`"@)),
                Some(k) => (ev.push(Event::KeyDown(k)), held.push(k), None),
            }
        }
    }
}

/// Releasing held keys, last pressed first.
pub open spec fn releases(held: Seq<KeyCode>) -> Seq<Event> {
    Seq::new(held.len(), |i: int| Event::KeyUp(held[held.len() - 1 - i]))
}

/// A key combination: modifiers down, the key pressed and released, the
/// modifiers released in reverse order.
pub open spec fn combo_plan(b: Backend, combo: Seq<char>) -> (Seq<Event>, Option<Seq<char>>) {
    let parts = combo_parts(combo);
    if parts.len() == 0 {
        (Seq::empty(), Some("empty key combination"@))
    } else {
        let (ev, held, err) = mods_down(b, parts.drop_last());
        if err is Some {
            (ev, err)
        } else {
            match code_of(b, parts.last()) {
                None => (ev, Some("unknown key `"@ + parts.last() + "`"@)),
                Some(k) => (ev.push(Event::KeyTap(k)) + releases(held), None),
            }
        }
    }
}

fn combo_events(b: Backend, combo: &str) -> (r: (Vec<Event>, Option<String>))
    ensures
        (r.0@, match r.1 { Some(e) => Some(e@), None => None }) == combo_plan(b, combo@),
{
    let parts = split_combo(combo);
    let ghost ps = parts@.map_values(|p: String| p@);
    if parts.len() == 0 {
        return (Vec::new(), Some(String::from_str("empty key combination")));
    }
    let last = parts.len() - 1;
    let ghost mods = ps.drop_last();
    let mut events: Vec<Event> = Vec::new();
    let mut held: Vec<KeyCode> = Vec::new();
    let mut i: usize = 0;
    assert(mods.take(0) =~= Seq::<Seq<char>>::empty());
    while i < last
        invariant
            last + 1 == parts@.len(),
            ps == parts@.map_values(|p: String| p@),
            ps == combo_parts(combo@),
            mods == ps.drop_last(),
            i <= last,
            mods_down(b, mods.take(i as int)) == (events@, held@, None::<Seq<char>>),
        decreases last - i,
    {
        assert(mods.take(i + 1).drop_last() =~= mods.take(i as int));
        assert(mods[i as int] == parts@[i as int]@);
        match key_code(b, parts[i].as_str()) {
            None => {
                let mut e = String::from_str("unknown modifier `");
                crate::text::push_str(&mut e, parts[i].as_str());
                crate::text::push_str(&mut e, "`");
                proof {
                    assert(mods.take(i + 1).last() == mods[i as int]);
                    assert(mods_down(b, mods.take(i + 1)) == (events@, held@, Some(e@)));
                    lemma_mods_down_stops(b, mods, i as int + 1);
                }
                return (events, Some(e));
            }
            Some(k) => {
                events.push(Event::KeyDown(k));
                held.push(k);
            }
        }
        i = i + 1;
    }
    assert(mods.take(last as int) =~= mods);
    assert(ps.last() == parts@[last as int]@);
    match key_code(b, parts[last].as_str()) {
        None => {
            let mut e = String::from_str("unknown key `");
            crate::text::push_str(&mut e, parts[last].as_str());
            crate::text::push_str(&mut e, "`");
            (events, Some(e))
        }
        Some(k) => {
            events.push(Event::KeyTap(k));
            let ghost pressed = events@;
            let mut j: usize = held.len();
            while j > 0
                invariant
                    j <= held@.len(),
                    events@ == pressed + releases(held@).take(held@.len() - j),
                decreases j,
            {
                j = j - 1;
                events.push(Event::KeyUp(held[j]));
                assert(events@ =~= pressed + releases(held@).take(held@.len() - j));
            }
            assert(releases(held@).take(held@.len() as int) =~= releases(held@));
            (events, None)
        }
    }
}

/// Once a modifier is unknown, the rest of the modifiers change nothing.
proof fn lemma_mods_down_stops(b: Backend, mods: Seq<Seq<char>>, k: int)
    requires
        0 < k <= mods.len(),
        mods_down(b, mods.take(k)).2 is Some,
    ensures
        mods_down(b, mods) == mods_down(b, mods.take(k)),
    decreases mods.len() - k,
{
    if k < mods.len() {
        assert(mods.take(k + 1).drop_last() =~= mods.take(k));
        lemma_mods_down_stops(b, mods, k + 1);
    } else {
        assert(mods.take(k) =~= mods);
    }
}

// ── Actions as events ──────────────────────────────────────────────────────

/// Division by ten, rounding toward zero as Rust's `/` does.
pub open spec fn tdiv10(a: int) -> int {
    if a >= 0 { a / 10 } else { -((-a) / 10) }
}

/// Step `i` (of ten) of a drag from `f` to `t`.
pub open spec fn drag_point(f: (i32, i32), t: (i32, i32), i: int) -> (i32, i32) {
    ((f.0 + tdiv10((t.0 - f.0) * i)) as i32, (f.1 + tdiv10((t.1 - f.1) * i)) as i32)
}

/// A drag moves in ten steps, so apps that track motion see a path.
pub open spec fn drag_steps(f: (i32, i32), t: (i32, i32)) -> Seq<Event> {
    Seq::new(10, |k: int| Event::DragTo(drag_point(f, t, k + 1).0, drag_point(f, t, k + 1).1))
}

/// `times` clicks of `b` at a point.
pub open spec fn clicks(x: i32, y: i32, b: MouseButton, times: nat) -> Seq<Event> {
    seq![Event::MoveTo(x, y)] + Seq::new(2 * times, |i: int| if i % 2 == 0 { Event::Press(b) } else { Event::Release(b) })
}

/// The drag's span, times ten, fits in `i32` on both axes (as the
/// arithmetic of the steps needs).
pub open spec fn drag_fits(a: ActionView) -> bool {
    match a {
        ActionView::LeftClickDrag(f, t) => {
            &&& -0x8000_0000 <= (t.0 - f.0) * 10 < 0x8000_0000
            &&& -0x8000_0000 <= (t.1 - f.1) * 10 < 0x8000_0000
        },
        _ => true,
    }
}

/// The events that carry out an action on a backend, and the error that
/// stops it part-way (the events before the error are still posted).
pub open spec fn plan_of(b: Backend, a: ActionView) -> (Seq<Event>, Option<Seq<char>>) {
    match a {
        ActionView::Screenshot | ActionView::CursorPosition | ActionView::Zoom(_) => (Seq::empty(), None),
        ActionView::Wait(ms) => (seq![Event::Pause(if ms > 30000 { 30000 } else { ms })], None),
        ActionView::MouseMove(x, y) => (seq![Event::MoveTo(x, y)], None),
        ActionView::LeftClick(x, y) => (clicks(x, y, MouseButton::Left, 1), None),
        ActionView::RightClick(x, y) => (clicks(x, y, MouseButton::Right, 1), None),
        ActionView::MiddleClick(x, y) => (clicks(x, y, MouseButton::Middle, 1), None),
        ActionView::DoubleClick(x, y) => (clicks(x, y, MouseButton::Left, 2), None),
        ActionView::TripleClick(x, y) => (clicks(x, y, MouseButton::Left, 3), None),
        ActionView::LeftMouseDown => (seq![Event::Press(MouseButton::Left)], None),
        ActionView::LeftMouseUp => (seq![Event::Release(MouseButton::Left)], None),
        ActionView::LeftClickDrag(f, t) => (seq![Event::MoveTo(f.0, f.1), Event::Press(MouseButton::Left)]
            + drag_steps(f, t) + seq![Event::Release(MouseButton::Left)], None),
        ActionView::Scroll(x, y, d, n) => (seq![Event::MoveTo(x, y), Event::Wheel(d, if n < 1 { 1 } else { n })], None),
        ActionView::Key(c) => combo_plan(b, c),
        ActionView::HoldKey(c, ms) => match code_of(b, c) {
            None => (Seq::empty(), Some("unknown key `"@ + c + "`"@)),
            Some(k) => (seq![Event::KeyDown(k), Event::Pause(if ms > 10000 { 10000 } else { ms }), Event::KeyUp(k)], None),
        },
        ActionView::Type(_) => (seq![Event::TypeText], None),
    }
}

fn push_clicks(ev: &mut Vec<Event>, x: i32, y: i32, b: MouseButton, times: u32)
    requires
        old(ev)@.len() == 0,
        times <= 3,
    ensures
        final(ev)@ == clicks(x, y, b, times as nat),
{
    ev.push(Event::MoveTo(x, y));
    let mut k: u32 = 0;
    while k < times
        invariant
            k <= times <= 3,
            ev@ == seq![Event::MoveTo(x, y)] + Seq::new(2 * (k as nat), |i: int| if i % 2 == 0 { Event::Press(b) } else { Event::Release(b) }),
        decreases times - k,
    {
        ev.push(Event::Press(b));
        ev.push(Event::Release(b));
        k = k + 1;
        assert(ev@ =~= seq![Event::MoveTo(x, y)] + Seq::new(2 * (k as nat), |i: int| if i % 2 == 0 { Event::Press(b) } else { Event::Release(b) }));
    }
}

fn step_of(f: i32, t: i32, i: i64) -> (r: i32)
    requires
        1 <= i <= 10,
        -0x8000_0000 <= (t - f) * 10 < 0x8000_0000,
    ensures
        r == f + tdiv10((t - f) * i),
{
    let d: i64 = t as i64 - f as i64;
    assert(-0x10_0000_0000 <= d * i <= 0x10_0000_0000) by (nonlinear_arith)
        requires -0x1_0000_0000 <= d <= 0x1_0000_0000, 1 <= i <= 10;
    assert(-0x10_0000_0000 <= (-d) * i <= 0x10_0000_0000) by (nonlinear_arith)
        requires -0x1_0000_0000 <= d <= 0x1_0000_0000, 1 <= i <= 10;
    let q: i64 = if d >= 0 { d * i / 10 } else { -((-d) * i / 10) };
    proof {
        let dd = d as int;
        let ii = i as int;
        if dd >= 0 {
            assert(0 <= dd * ii <= dd * 10) by (nonlinear_arith) requires dd >= 0, 1 <= ii <= 10;
            assert((dd * ii) / 10 <= dd) by (nonlinear_arith) requires 0 <= dd * ii <= dd * 10;
            assert(0 <= (dd * ii) / 10) by (nonlinear_arith) requires 0 <= dd * ii;
        } else {
            assert(0 <= (-dd) * ii <= (-dd) * 10) by (nonlinear_arith) requires dd < 0, 1 <= ii <= 10;
            assert(((-dd) * ii) / 10 <= -dd) by (nonlinear_arith) requires 0 <= (-dd) * ii <= (-dd) * 10;
            assert(0 <= ((-dd) * ii) / 10) by (nonlinear_arith) requires 0 <= (-dd) * ii;
            assert((-dd) * ii == -(dd * ii)) by (nonlinear_arith);
        }
    }
    (f as i64 + q) as i32
}

impl Backend {
    /// The events that carry out `action` (already in screen pixels), and
    /// the error that stops it part-way.
    pub fn plan(self, action: &Action) -> (r: (Vec<Event>, Option<String>))
        requires
            drag_fits(action@),
        ensures
            (r.0@, match r.1 { Some(e) => Some(e@), None => None }) == plan_of(self, action@),
    {
        let mut ev: Vec<Event> = Vec::new();
        match action {
            Action::Screenshot | Action::CursorPosition | Action::Zoom { .. } => {}
            Action::Wait { millis } => ev.push(Event::Pause(if *millis > 30000 { 30000 } else { *millis })),
            Action::MouseMove { x, y } => ev.push(Event::MoveTo(*x, *y)),
            Action::LeftClick { x, y } => push_clicks(&mut ev, *x, *y, MouseButton::Left, 1),
            Action::RightClick { x, y } => push_clicks(&mut ev, *x, *y, MouseButton::Right, 1),
            Action::MiddleClick { x, y } => push_clicks(&mut ev, *x, *y, MouseButton::Middle, 1),
            Action::DoubleClick { x, y } => push_clicks(&mut ev, *x, *y, MouseButton::Left, 2),
            Action::TripleClick { x, y } => push_clicks(&mut ev, *x, *y, MouseButton::Left, 3),
            Action::LeftMouseDown => ev.push(Event::Press(MouseButton::Left)),
            Action::LeftMouseUp => ev.push(Event::Release(MouseButton::Left)),
            Action::LeftClickDrag { from, to } => {
                ev.push(Event::MoveTo(from.0, from.1));
                ev.push(Event::Press(MouseButton::Left));
                let ghost head = ev@;
                let mut i: i64 = 1;
                while i <= 10
                    invariant
                        1 <= i <= 11,
                        drag_fits(action@),
                        action@ == ActionView::LeftClickDrag(*from, *to),
                        ev@ == head + drag_steps(*from, *to).take(i - 1),
                    decreases 11 - i,
                {
                    let x = step_of(from.0, to.0, i);
                    let y = step_of(from.1, to.1, i);
                    ev.push(Event::DragTo(x, y));
                    i = i + 1;
                    assert(ev@ =~= head + drag_steps(*from, *to).take(i - 1));
                }
                assert(drag_steps(*from, *to).take(10) =~= drag_steps(*from, *to));
                ev.push(Event::Release(MouseButton::Left));
            }
            Action::Scroll { x, y, direction, amount } => {
                ev.push(Event::MoveTo(*x, *y));
                ev.push(Event::Wheel(*direction, if *amount < 1 { 1 } else { *amount }));
            }
            Action::Key { combo } => {
                return combo_events(self, combo.as_str());
            }
            Action::HoldKey { combo, millis } => {
                match key_code(self, combo.as_str()) {
                    None => {
                        let mut e = String::from_str("unknown key `");
                        crate::text::push_str(&mut e, combo.as_str());
                        crate::text::push_str(&mut e, "`");
                        return (ev, Some(e));
                    }
                    Some(k) => {
                        ev.push(Event::KeyDown(k));
                        ev.push(Event::Pause(if *millis > 10000 { 10000 } else { *millis }));
                        ev.push(Event::KeyUp(k));
                    }
                }
            }
            Action::Type { .. } => ev.push(Event::TypeText),
        }
        assert(ev@ =~= plan_of(self, action@).0);
        (ev, None)
    }
}

/// Whatever the backend, modifiers pressed for a combination are released,
/// last first, once the key has been pressed: a completed combination leaves
/// no key held down.
pub proof fn lemma_combo_releases(b: Backend, combo: Seq<char>)
    ensures
        combo_plan(b, combo).1 is None ==> ({
            let ev = combo_plan(b, combo).0;
            let parts = combo_parts(combo);
            let held = mods_down(b, parts.drop_last()).1;
            &&& ev.len() == 2 * held.len() + 1
            &&& forall|i: int| 0 <= i < held.len() ==> ev[i] == Event::KeyDown(held[i])
                && ev[ev.len() - 1 - i] == Event::KeyUp(held[i])
        }),
{
    let parts = combo_parts(combo);
    if parts.len() > 0 {
        lemma_mods_shape(b, parts.drop_last());
    }
}

proof fn lemma_mods_shape(b: Backend, mods: Seq<Seq<char>>)
    ensures
        mods_down(b, mods).0.len() == mods_down(b, mods).1.len(),
        forall|i: int| 0 <= i < mods_down(b, mods).1.len() ==> mods_down(b, mods).0[i] == Event::KeyDown(mods_down(b, mods).1[i]),
    decreases mods.len(),
{
    if mods.len() > 0 {
        lemma_mods_shape(b, mods.drop_last());
    }
}


// ── X11: the keyboard map and the screen's pixels ─────────────────────────

/// XTEST event kinds, from the core X protocol.
pub const KEY_PRESS: u8 = 2;
pub const KEY_RELEASE: u8 = 3;
pub const BUTTON_PRESS: u8 = 4;
pub const BUTTON_RELEASE: u8 = 5;
pub const MOTION_NOTIFY: u8 = 6;

/// The keysym of the left Shift key.
pub const SHIFT_L: u32 = 0xffe1;

/// The server's keyboard map: for each keycode from `min` on, `per`
/// keysyms, the first unshifted and the second shifted.
pub struct Keymap {
    min: u8,
    per: usize,
    syms: Vec<u32>,
}

/// The key that produces `sym`, searching keycodes from the one whose
/// keysyms start at `i` (keycode `min + k`): the first keycode that has it
/// unshifted or shifted, unshifted first. A zero keysym is no key, and
/// keycodes past 255 are not searched.
pub open spec fn key_from(min: u8, per: nat, syms: Seq<u32>, sym: u32, i: nat, k: nat) -> Option<(u8, bool)>
    decreases if i < syms.len() { syms.len() - i } else { 0 },
{
    if per == 0 || sym == 0 || i >= syms.len() || min + k > 255 {
        None
    } else if syms[i as int] == sym {
        Some(((min + k) as u8, false))
    } else if per >= 2 && i + 1 < syms.len() && syms[i as int + 1] == sym {
        Some(((min + k) as u8, true))
    } else {
        key_from(min, per, syms, sym, i + per, k + 1)
    }
}

impl Keymap {
    pub closed spec fn key(self, sym: u32) -> Option<(u8, bool)> {
        key_from(self.min, self.per as nat, self.syms@, sym, 0, 0)
    }

    /// The map from a `GetKeyboardMapping` reply: the first keycode asked
    /// for, keysyms per keycode, and the keysyms.
    pub fn new(min: u8, per: u8, syms: Vec<u32>) -> (r: Keymap)
        ensures
            forall|sym: u32| #[trigger] r.key(sym) == key_from(min, per as nat, syms@, sym, 0, 0),
    {
        Keymap { min, per: per as usize, syms }
    }

    /// The keycode that produces `sym`, and whether Shift is needed.
    pub fn lookup(&self, sym: u32) -> (r: Option<(u8, bool)>)
        ensures
            r == self.key(sym),
    {
        if self.per == 0 || sym == 0 {
            return None;
        }
        let n = self.syms.len();
        let mut i: usize = 0;
        let mut k: usize = 0;
        while i < n && (self.min as usize) + k <= 255
            invariant
                self.per > 0,
                sym != 0,
                n == self.syms@.len(),
                k <= 256,
                key_from(self.min, self.per as nat, self.syms@, sym, 0, 0)
                    == key_from(self.min, self.per as nat, self.syms@, sym, i as nat, k as nat),
            decreases n - i,
        {
            if self.syms[i] == sym {
                return Some(((self.min as usize + k) as u8, false));
            }
            if self.per >= 2 && i + 1 < n && self.syms[i + 1] == sym {
                return Some(((self.min as usize + k) as u8, true));
            }
            if n - i <= self.per {
                assert(key_from(self.min, self.per as nat, self.syms@, sym, (i + self.per) as nat, (k + 1) as nat) == None::<(u8, bool)>);
                return None;
            }
            i = i + self.per;
            k = k + 1;
        }
        None
    }
}

/// `n` as `{:#x}` writes it: `0x` and lower-case hex digits.
pub open spec fn hex_digits(n: nat) -> Seq<char>
    decreases n,
{
    if n < 16 { seq![hex_lower(n)] } else { hex_digits(n / 16).push(hex_lower(n % 16)) }
}

fn push_hex(out: &mut String, n: u32)
    ensures
        final(out)@ == old(out)@ + hex_digits(n as nat),
    decreases n,
{
    if n >= 16 {
        push_hex(out, n / 16);
    }
    push_char(out, hex_digit((n % 16) as u8, false));
    assert(final(out)@ =~= old(out)@ + hex_digits(n as nat));
}

/// The XTEST events that type the key producing `sym`: Shift around it
/// when the key needs it (and the layout has a left Shift).
pub open spec fn tap_of(map: Keymap, sym: u32) -> Result<Seq<(u8, u8)>, Seq<char>> {
    match map.key(sym) {
        None => Err("no key on this layout produces keysym 0x"@ + hex_digits(sym as nat)),
        Some((code, shift)) => {
            let press = seq![(KEY_PRESS, code), (KEY_RELEASE, code)];
            match map.key(SHIFT_L) {
                Some((sc, _)) => if shift {
                    Ok(seq![(KEY_PRESS, sc)] + press + seq![(KEY_RELEASE, sc)])
                } else {
                    Ok(press)
                },
                None => Ok(press),
            }
        },
    }
}

impl Keymap {
    /// Press and release the key that produces `sym`.
    pub fn tap(&self, sym: u32) -> (r: Result<Vec<(u8, u8)>, String>)
        ensures
            match (r, tap_of(*self, sym)) {
                (Ok(v), Ok(w)) => v@ == w,
                (Err(e), Err(f)) => e@ == f,
                _ => false,
            },
    {
        let (code, shift) = match self.lookup(sym) {
            Some(k) => k,
            None => {
                let mut e = String::from_str("no key on this layout produces keysym 0x");
                push_hex(&mut e, sym);
                return Err(e);
            }
        };
        let mut v: Vec<(u8, u8)> = Vec::new();
        let shift_code = match self.lookup(SHIFT_L) {
            Some((sc, _)) => if shift { Some(sc) } else { None },
            None => None,
        };
        match shift_code {
            Some(sc) => v.push((KEY_PRESS, sc)),
            None => {}
        }
        v.push((KEY_PRESS, code));
        v.push((KEY_RELEASE, code));
        match shift_code {
            Some(sc) => v.push((KEY_RELEASE, sc)),
            None => {}
        }
        proof {
            let press = seq![(KEY_PRESS, code), (KEY_RELEASE, code)];
            match shift_code {
                Some(sc) => assert(v@ =~= seq![(KEY_PRESS, sc)] + press + seq![(KEY_RELEASE, sc)]),
                None => assert(v@ =~= press),
            }
        }
        Ok(v)
    }
}

/// Bytes per pixel in a `GetImage` reply: four (BGRX) when the data holds
/// that many, else three.
pub open spec fn stride_of(len: nat, px: nat) -> nat {
    if len >= px * 4 { 4 } else { 3 }
}

/// The RGB bytes of pixel `p` of X's blue-first data.
pub open spec fn rgb_at(data: Seq<u8>, stride: nat, p: int) -> Seq<u8> {
    seq![data[p * stride + 2], data[p * stride + 1], data[p * stride]]
}

/// The screen's pixels as RGB, row by row: X sends each pixel blue first,
/// in four bytes (BGRX) or three; data too short for the screen is refused.
pub fn x11_pixels_to_rgb(data: &Vec<u8>, width: u32, height: u32) -> (r: Result<Vec<u8>, String>)
    requires
        (width as int) * (height as int) * 4 <= usize::MAX,
    ensures
        ({
            let px = (width * height) as nat;
            let s = stride_of(data@.len(), px);
            if data@.len() < px * s {
                r matches Err(e) && e@ == "screen data too short: "@ + decimal(data@.len()) + " bytes for "@
                    + decimal(width as nat) + "x"@ + decimal(height as nat)
            } else {
                r matches Ok(rgb) && rgb@.len() == px * 3
                    && forall|p: int| 0 <= p < px ==> #[trigger] rgb@.subrange(p * 3, p * 3 + 3) == rgb_at(data@, s, p)
            }
        }),
{
    let px: usize = (width as usize) * (height as usize);
    let stride: usize = if data.len() >= px * 4 { 4 } else { 3 };
    if data.len() < px * stride {
        let mut e = String::from_str("screen data too short: ");
        push_decimal(&mut e, data.len() as u128);
        push_str(&mut e, " bytes for ");
        push_decimal(&mut e, width as u128);
        push_str(&mut e, "x");
        push_decimal(&mut e, height as u128);
        return Err(e);
    }
    let mut rgb: Vec<u8> = Vec::new();
    let mut p: usize = 0;
    while p < px
        invariant
            p <= px,
            px == (width * height) as nat,
            stride == stride_of(data@.len(), px as nat),
            px * stride <= data@.len(),
            px * 4 <= usize::MAX,
            rgb@.len() == p * 3,
            forall|q: int| 0 <= q < p ==> #[trigger] rgb@.subrange(q * 3, q * 3 + 3) == rgb_at(data@, stride as nat, q),
        decreases px - p,
    {
        assert(p * stride + 2 < px * stride) by (nonlinear_arith)
            requires p < px, stride == 3 || stride == 4;
        let i = p * stride;
        let ghost before = rgb@;
        rgb.push(data[i + 2]);
        rgb.push(data[i + 1]);
        rgb.push(data[i]);
        assert forall|q: int| 0 <= q < p + 1 implies #[trigger] rgb@.subrange(q * 3, q * 3 + 3) == rgb_at(data@, stride as nat, q) by {
            if q < p {
                assert(rgb@.subrange(q * 3, q * 3 + 3) =~= before.subrange(q * 3, q * 3 + 3));
            } else {
                assert(rgb@.subrange(q * 3, q * 3 + 3) =~= rgb_at(data@, stride as nat, q));
            }
        }
        p = p + 1;
    }
    Ok(rgb)
}

} // verus!
