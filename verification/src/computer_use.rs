//! Computer use: the mapping between the picture the model sees and the
//! pixels that are actually clicked.
//!
//! A computer-use model is told a display size (`width` × `height`) and every
//! coordinate it emits is in that space, not in real screen pixels. The
//! harness scales the screenshot down into that space on the way out and
//! scales coordinates back up on the way in. [`VirtualDisplay`] is that
//! contract.

use vstd::prelude::*;
use vstd::arithmetic::div_mod::lemma_fundamental_div_mod_converse;
use crate::chat::{arg_text, member_or_empty};
use crate::json::{array_len, i64_item, i64_member, json_array_len, json_i64_item, json_i64_member, json_member_text, json_str_member, member_text, str_member};
use crate::text::{chars_of, decimal, int_decimal, lower, lower_vec, push_char, push_decimal, push_int, push_range, push_str, str_eq, string_of, trim, trimmed};

verus! {

/// Longest edge of the virtual display handed to the model.
pub const VIRTUAL_MAX_EDGE: u32 = 1024;

/// The mapping between what the model sees and what the mouse actually does.
#[derive(Debug, Clone, Copy, PartialEq, Eq, Structural)]
pub struct VirtualDisplay {
    /// Real screen size in physical pixels.
    pub real_width: u32,
    pub real_height: u32,
    /// Size the model is told about, and which its coordinates refer to.
    pub width: u32,
    pub height: u32,
}

/// Which way a scroll goes.
#[derive(Debug, Clone, Copy, PartialEq, Eq, Structural)]
pub enum ScrollDirection {
    Up,
    Down,
    Left,
    Right,
}

pub open spec fn max_int(a: int, b: int) -> int {
    if a >= b { a } else { b }
}

pub open spec fn clamp(v: int, lo: int, hi: int) -> int {
    if v < lo { lo } else if v > hi { hi } else { v }
}

/// `v * VIRTUAL_MAX_EDGE / longest`, rounded to the nearest integer with
/// halves rounded up.
pub open spec fn scaled(v: int, longest: int) -> int {
    (2 * v * 1024 + longest) / (2 * longest)
}

/// What [`VirtualDisplay::fit`] returns: a display no larger than the cap on
/// its longest edge, with both sides scaled by the same factor.
pub open spec fn fit_of(real_width: u32, real_height: u32) -> VirtualDisplay {
    let w = max_int(real_width as int, 1);
    let h = max_int(real_height as int, 1);
    let longest = max_int(w, h);
    if longest <= 1024 {
        VirtualDisplay { real_width: w as u32, real_height: h as u32, width: w as u32, height: h as u32 }
    } else {
        VirtualDisplay {
            real_width: w as u32,
            real_height: h as u32,
            width: max_int(scaled(w, longest), 1) as u32,
            height: max_int(scaled(h, longest), 1) as u32,
        }
    }
}

/// Model coordinate `v` → real pixel: the centre of the source pixel block,
/// `floor((v + 1/2) * full / virt)`, kept on the screen. A zero-sized model
/// space sends every non-negative coordinate to the far edge.
pub open spec fn real_coord(v: int, full: int, virt: int) -> int {
    if virt == 0 {
        if v >= 0 { full - 1 } else { 0 }
    } else {
        clamp((2 * v + 1) * full / (2 * virt), 0, full - 1)
    }
}

/// Real pixel `v` → model coordinate: `floor(v * virt / full)`, kept inside
/// the model's space. A zero-sized full screen sends every positive
/// coordinate to the far edge.
pub open spec fn virt_coord(v: int, full: int, virt: int) -> int {
    if full == 0 {
        if v > 0 { virt - 1 } else { 0 }
    } else {
        clamp(v * virt / full, 0, virt - 1)
    }
}

proof fn lemma_div_is(x: int, d: int, q: int)
    requires
        d > 0,
        q * d <= x < q * d + d,
    ensures
        x / d == q,
{
    lemma_fundamental_div_mod_converse(x, d, q, x - q * d);
}

/// `num / den` (rounding toward negative infinity) for a positive `den`.
fn floor_div(num: i128, den: i128) -> (q: i128)
    requires
        den > 0,
        -0x1_0000_0000_0000_0000_0000_0000 < num < 0x1_0000_0000_0000_0000_0000_0000,
        den < 0x1_0000_0000_0000_0000,
    ensures
        q == num / den,
{
    if num >= 0 {
        let q = num / den;
        proof {
            let qq = q as int;
            let nn = num as int;
            let dd = den as int;
            assert(qq * dd <= nn < qq * dd + dd) by (nonlinear_arith)
                requires qq == nn / dd, nn >= 0, dd > 0;
            lemma_div_is(nn, dd, qq);
        }
        q
    } else {
        let m = -num + den - 1;
        let t = m / den;
        proof {
            let tt = t as int;
            let nn = num as int;
            let dd = den as int;
            let mm = m as int;
            assert(tt * dd <= mm < tt * dd + dd) by (nonlinear_arith)
                requires tt == mm / dd, mm >= 0, dd > 0;
            assert((-tt) * dd <= nn < (-tt) * dd + dd) by (nonlinear_arith)
                requires tt * dd <= mm < tt * dd + dd, mm == -nn + dd - 1, dd > 0;
            lemma_div_is(nn, dd, -tt);
        }
        -t
    }
}

impl VirtualDisplay {
    /// Both real sides are at least one pixel and fit an `i32`, so a point
    /// can be mapped onto the screen.
    pub open spec fn maps_points(self) -> bool {
        1 <= self.real_width <= i32::MAX && 1 <= self.real_height <= i32::MAX
    }

    /// Fit a full display into the virtual coordinate space, preserving aspect
    /// ratio. A display already within the cap is passed through 1:1; a zero
    /// side counts as one pixel. Sides are rounded to the nearest pixel, never
    /// truncated, so no mapping is biased toward the top-left.
    pub fn fit(real_width: u32, real_height: u32) -> (d: VirtualDisplay)
        ensures
            d == fit_of(real_width, real_height),
    {
        let real_width = if real_width >= 1 { real_width } else { 1 };
        let real_height = if real_height >= 1 { real_height } else { 1 };
        let longest = if real_width >= real_height { real_width } else { real_height };
        if longest <= VIRTUAL_MAX_EDGE {
            return VirtualDisplay { real_width, real_height, width: real_width, height: real_height };
        }
        let l = longest as u64;
        let sw = (2 * (real_width as u64) * 1024 + l) / (2 * l);
        let sh = (2 * (real_height as u64) * 1024 + l) / (2 * l);
        proof {
            lemma_scaled_within_cap(real_width as int, l as int);
            lemma_scaled_within_cap(real_height as int, l as int);
        }
        VirtualDisplay {
            real_width,
            real_height,
            width: if sw >= 1 { sw as u32 } else { 1 },
            height: if sh >= 1 { sh as u32 } else { 1 },
        }
    }

    /// Is the model's view the same size as the screen?
    pub fn is_identity(&self) -> (r: bool)
        ensures
            r == (self.width == self.real_width && self.height == self.real_height),
    {
        self.width == self.real_width && self.height == self.real_height
    }

    /// Model coordinate → full screen pixel, aiming at the centre of the
    /// source pixel block and kept on the screen.
    pub fn to_real(&self, x: i32, y: i32) -> (r: (i32, i32))
        requires
            1 <= self.real_width <= i32::MAX,
            1 <= self.real_height <= i32::MAX,
        ensures
            r.0 == real_coord(x as int, self.real_width as int, self.width as int),
            r.1 == real_coord(y as int, self.real_height as int, self.height as int),
            0 <= r.0 < self.real_width,
            0 <= r.1 < self.real_height,
    {
        (to_real_axis(x, self.real_width, self.width), to_real_axis(y, self.real_height, self.height))
    }

    /// Real screen pixel → model coordinate, kept inside the model's space.
    pub fn to_virtual(&self, x: i32, y: i32) -> (r: (i32, i32))
        requires
            1 <= self.width <= i32::MAX,
            1 <= self.height <= i32::MAX,
        ensures
            r.0 == virt_coord(x as int, self.real_width as int, self.width as int),
            r.1 == virt_coord(y as int, self.real_height as int, self.height as int),
            0 <= r.0 < self.width,
            0 <= r.1 < self.height,
    {
        (to_virtual_axis(x, self.real_width, self.width), to_virtual_axis(y, self.real_height, self.height))
    }
}

fn to_real_axis(v: i32, full: u32, virt: u32) -> (r: i32)
    requires
        1 <= full <= i32::MAX,
    ensures
        r == real_coord(v as int, full as int, virt as int),
        0 <= r < full,
{
    let hi = (full - 1) as i32;
    if virt == 0 {
        return if v >= 0 { hi } else { 0 };
    }
    proof {
        let vv = v as int;
        let rr = full as int;
        assert(-0x1_0000_0000_0000_0000_0000_0000 < (2 * vv + 1) * rr < 0x1_0000_0000_0000_0000_0000_0000)
            by (nonlinear_arith)
            requires -0x8000_0000 <= vv < 0x8000_0000, 1 <= rr < 0x8000_0000;
    }
    let num: i128 = (2 * (v as i128) + 1) * (full as i128);
    let q = floor_div(num, 2 * (virt as i128));
    if q < 0 {
        0
    } else if q > hi as i128 {
        hi
    } else {
        q as i32
    }
}

fn to_virtual_axis(v: i32, full: u32, virt: u32) -> (r: i32)
    requires
        1 <= virt <= i32::MAX,
    ensures
        r == virt_coord(v as int, full as int, virt as int),
        0 <= r < virt,
{
    let hi = (virt - 1) as i32;
    if full == 0 {
        return if v > 0 { hi } else { 0 };
    }
    proof {
        let vv = v as int;
        let ww = virt as int;
        assert(-0x1_0000_0000_0000_0000_0000_0000 < vv * ww < 0x1_0000_0000_0000_0000_0000_0000)
            by (nonlinear_arith)
            requires -0x8000_0000 <= vv < 0x8000_0000, 1 <= ww < 0x8000_0000;
    }
    let num: i128 = (v as i128) * (virt as i128);
    let q = floor_div(num, full as i128);
    if q < 0 {
        0
    } else if q > hi as i128 {
        hi
    } else {
        q as i32
    }
}

/// A side no longer than the longest side scales to at most the cap, and
/// never grows.
proof fn lemma_scaled_within_cap(v: int, longest: int)
    requires
        1 <= v <= longest,
        longest > 1024,
    ensures
        0 <= scaled(v, longest) <= 1024,
        scaled(v, longest) <= v,
        v == longest ==> scaled(v, longest) == 1024,
{
    let q = scaled(v, longest);
    let n = 2 * v * 1024 + longest;
    let d = 2 * longest;
    assert(q * d <= n < q * d + d) by (nonlinear_arith)
        requires q == n / d, n >= 0, d > 0;
    assert(q <= 1024) by (nonlinear_arith)
        requires q * d <= n, n == 2 * v * 1024 + longest, d == 2 * longest, v <= longest, longest > 0;
    assert(q >= 0) by (nonlinear_arith)
        requires n < q * d + d, n >= 0, d > 0;
    assert(q <= v) by (nonlinear_arith)
        requires q * d <= n, n == 2 * v * 1024 + longest, d == 2 * longest, longest > 1024, v >= 1;
    if v == longest {
        assert(1024 * d <= n < 1024 * d + d) by (nonlinear_arith)
            requires n == 2 * v * 1024 + longest, d == 2 * longest, v == longest, longest > 0;
        lemma_div_is(n, d, 1024);
    }
}

/// What `fit` promises: the full size is kept (a zero side counts as one
/// pixel), the model's view is never larger than the screen, its longest
/// edge is the smaller of the screen's longest edge and the cap, and the view
/// is the identity exactly when the screen already fits under the cap.
pub proof fn lemma_fit_bounds(real_width: u32, real_height: u32)
    ensures
        ({
            let d = fit_of(real_width, real_height);
            let longest = max_int(d.real_width as int, d.real_height as int);
            &&& d.real_width == max_int(real_width as int, 1)
            &&& d.real_height == max_int(real_height as int, 1)
            &&& 1 <= d.width <= d.real_width
            &&& 1 <= d.height <= d.real_height
            &&& d.width <= 1024 && d.height <= 1024
            &&& max_int(d.width as int, d.height as int) == if longest <= 1024 { longest } else { 1024 }
            &&& (d.width == d.real_width && d.height == d.real_height) <==> longest <= 1024
        }),
{
    let w = max_int(real_width as int, 1);
    let h = max_int(real_height as int, 1);
    let longest = max_int(w, h);
    if longest > 1024 {
        lemma_scaled_within_cap(w, longest);
        lemma_scaled_within_cap(h, longest);
    }
}

/// Clicking where the model points and reading the pointer back comes home:
/// for any display whose model space is no larger than the screen, a model
/// coordinate sent to the screen and mapped back lands on the same model
/// pixel or the one just before it.
pub proof fn lemma_round_trip(v: int, full: int, virt: int)
    requires
        1 <= virt <= full,
        0 <= v < virt,
    ensures
        0 <= real_coord(v, full, virt) < full,
        v - 1 <= virt_coord(real_coord(v, full, virt), full, virt) <= v,
{
    let n = (2 * v + 1) * full;
    let d = 2 * virt;
    let r = n / d;
    assert(r * d <= n < r * d + d) by (nonlinear_arith)
        requires r == n / d, n >= 0, d > 0;
    assert(0 <= r) by (nonlinear_arith)
        requires n < r * d + d, n >= 0, d > 0;
    assert(n < d * full) by (nonlinear_arith)
        requires n == (2 * v + 1) * full, d == 2 * virt, v < virt, full > 0;
    assert(r < full) by (nonlinear_arith)
        requires r * d <= n, n < d * full, d > 0;
    assert(real_coord(v, full, virt) == r);
    let m = r * virt;
    let b = m / full;
    assert(b * full <= m < b * full + full) by (nonlinear_arith)
        requires b == m / full, m >= 0, full > 0;
    assert(b <= v) by (nonlinear_arith)
        requires b * full <= m, m == r * virt, r * (2 * virt) <= (2 * v + 1) * full, full > 0, virt > 0;
    assert(b >= v - 1) by (nonlinear_arith)
        requires m < b * full + full, m == r * virt, (2 * v + 1) * full < r * (2 * virt) + 2 * virt,
            virt <= full, virt > 0, full > 0;
    assert(b >= 0) by (nonlinear_arith)
        requires m < b * full + full, m >= 0, full > 0;
}

// ── Actions ────────────────────────────────────────────────────────────────

/// One computer-use action, named as the model emits it. Durations are kept
/// in whole milliseconds.
#[derive(Debug, PartialEq)]
pub enum Action {
    Screenshot,
    CursorPosition,
    MouseMove { x: i32, y: i32 },
    LeftClick { x: i32, y: i32 },
    RightClick { x: i32, y: i32 },
    MiddleClick { x: i32, y: i32 },
    DoubleClick { x: i32, y: i32 },
    TripleClick { x: i32, y: i32 },
    LeftMouseDown,
    LeftMouseUp,
    LeftClickDrag { from: (i32, i32), to: (i32, i32) },
    Key { combo: String },
    HoldKey { combo: String, millis: u64 },
    Type { text: String },
    Scroll { x: i32, y: i32, direction: ScrollDirection, amount: i32 },
    Wait { millis: u64 },
    /// Re-crop the last screenshot to a region at full resolution.
    Zoom { region: (i32, i32, i32, i32) },
}

/// An action as plain values.
pub enum ActionView {
    Screenshot,
    CursorPosition,
    MouseMove(i32, i32),
    LeftClick(i32, i32),
    RightClick(i32, i32),
    MiddleClick(i32, i32),
    DoubleClick(i32, i32),
    TripleClick(i32, i32),
    LeftMouseDown,
    LeftMouseUp,
    LeftClickDrag((i32, i32), (i32, i32)),
    Key(Seq<char>),
    HoldKey(Seq<char>, u64),
    Type(Seq<char>),
    Scroll(i32, i32, ScrollDirection, i32),
    Wait(u64),
    Zoom((i32, i32, i32, i32)),
}

/// Does the action carry a point on the screen?
pub open spec fn has_point(a: ActionView) -> bool {
    match a {
        ActionView::MouseMove(..) | ActionView::LeftClick(..) | ActionView::RightClick(..)
        | ActionView::MiddleClick(..) | ActionView::DoubleClick(..) | ActionView::TripleClick(..)
        | ActionView::LeftClickDrag(..) | ActionView::Scroll(..) | ActionView::Zoom(..) => true,
        _ => false,
    }
}

impl View for Action {
    type V = ActionView;

    open spec fn view(&self) -> ActionView {
        match self {
            Action::Screenshot => ActionView::Screenshot,
            Action::CursorPosition => ActionView::CursorPosition,
            Action::MouseMove { x, y } => ActionView::MouseMove(*x, *y),
            Action::LeftClick { x, y } => ActionView::LeftClick(*x, *y),
            Action::RightClick { x, y } => ActionView::RightClick(*x, *y),
            Action::MiddleClick { x, y } => ActionView::MiddleClick(*x, *y),
            Action::DoubleClick { x, y } => ActionView::DoubleClick(*x, *y),
            Action::TripleClick { x, y } => ActionView::TripleClick(*x, *y),
            Action::LeftMouseDown => ActionView::LeftMouseDown,
            Action::LeftMouseUp => ActionView::LeftMouseUp,
            Action::LeftClickDrag { from, to } => ActionView::LeftClickDrag(*from, *to),
            Action::Key { combo } => ActionView::Key(combo@),
            Action::HoldKey { combo, millis } => ActionView::HoldKey(combo@, *millis),
            Action::Type { text } => ActionView::Type(text@),
            Action::Scroll { x, y, direction, amount } => ActionView::Scroll(*x, *y, *direction, *amount),
            Action::Wait { millis } => ActionView::Wait(*millis),
            Action::Zoom { region } => ActionView::Zoom(*region),
        }
    }
}

/// The pair at `key` (an array of at least two integers), each cut to `i32`.
pub open spec fn coord_of(args: Seq<char>, key: Seq<char>) -> Option<(i32, i32)> {
    match json_array_len(args, key) {
        Some(n) => if n < 2 {
            None
        } else {
            match (json_i64_item(args, key, 0), json_i64_item(args, key, 1)) {
                (Some(a), Some(b)) => Some((a as i32, b as i32)),
                _ => None,
            }
        },
        None => None,
    }
}

/// The point of an action: `coordinate`, or else the `x` and `y` members.
pub open spec fn point_of(args: Seq<char>) -> Option<(i32, i32)> {
    match coord_of(args, "coordinate"@) {
        Some(c) => Some(c),
        None => match (json_i64_member(args, "x"@), json_i64_member(args, "y"@)) {
            (Some(x), Some(y)) => Some((x as i32, y as i32)),
            _ => None,
        },
    }
}

/// The key combination: the string `text` member, or, when there is no
/// `text` member at all, the string `key` member.
pub open spec fn combo_of(args: Seq<char>) -> Option<Seq<char>> {
    match json_member_text(args, "text"@) {
        Some(_) => json_str_member(args, "text"@),
        None => json_str_member(args, "key"@),
    }
}

pub open spec fn needs_point(name: Seq<char>) -> Seq<char> {
    "`"@ + name + "` needs a `coordinate` of [x, y]"@
}

pub open spec fn scroll_dir_of(args: Seq<char>) -> ScrollDirection {
    let d = lower(match json_str_member(args, "scroll_direction"@) { Some(s) => s, None => "down"@ });
    if d == "up"@ {
        ScrollDirection::Up
    } else if d == "left"@ {
        ScrollDirection::Left
    } else if d == "right"@ {
        ScrollDirection::Right
    } else {
        ScrollDirection::Down
    }
}

/// The action's name as matched: trimmed and ASCII-lowercased.
pub open spec fn action_name(args: Seq<char>) -> Seq<char> {
    lower(trim(arg_text(args, "action"@)))
}

pub open spec fn clicked(name: Seq<char>, args: Seq<char>, f: spec_fn(i32, i32) -> ActionView) -> Result<ActionView, Seq<char>> {
    match point_of(args) {
        Some((x, y)) => Ok(f(x, y)),
        None => Err(needs_point(name)),
    }
}

/// What `Action::parse` makes of the model's arguments (`args`, JSON text)
/// and of their `duration` in milliseconds. A few forgiving aliases are
/// accepted; anything unknown is an error, never a guess.
pub open spec fn action_of(args: Seq<char>, duration_ms: Option<u64>) -> Result<ActionView, Seq<char>> {
    let name = action_name(args);
    if name == "screenshot"@ {
        Ok(ActionView::Screenshot)
    } else if name == "cursor_position"@ {
        Ok(ActionView::CursorPosition)
    } else if name == "mouse_move"@ {
        clicked("mouse_move"@, args, |x: i32, y: i32| ActionView::MouseMove(x, y))
    } else if name == "left_click"@ || name == "click"@ {
        clicked("left_click"@, args, |x: i32, y: i32| ActionView::LeftClick(x, y))
    } else if name == "right_click"@ {
        clicked("right_click"@, args, |x: i32, y: i32| ActionView::RightClick(x, y))
    } else if name == "middle_click"@ {
        clicked("middle_click"@, args, |x: i32, y: i32| ActionView::MiddleClick(x, y))
    } else if name == "double_click"@ {
        clicked("double_click"@, args, |x: i32, y: i32| ActionView::DoubleClick(x, y))
    } else if name == "triple_click"@ {
        clicked("triple_click"@, args, |x: i32, y: i32| ActionView::TripleClick(x, y))
    } else if name == "left_mouse_down"@ {
        Ok(ActionView::LeftMouseDown)
    } else if name == "left_mouse_up"@ {
        Ok(ActionView::LeftMouseUp)
    } else if name == "left_click_drag"@ {
        match point_of(args) {
            None => Err(needs_point("left_click_drag"@)),
            Some(to) => match coord_of(args, "start_coordinate"@) {
                Some(from) => Ok(ActionView::LeftClickDrag(from, to)),
                None => Err("`left_click_drag` needs `start_coordinate`"@),
            },
        }
    } else if name == "key"@ || name == "keypress"@ || name == "press"@ {
        match combo_of(args) {
            Some(c) => Ok(ActionView::Key(c)),
            None => Err("`key` needs the combination in `text`"@),
        }
    } else if name == "hold_key"@ {
        match combo_of(args) {
            Some(c) => Ok(ActionView::HoldKey(c, match duration_ms { Some(d) => d, None => 1000 })),
            None => Err("`key` needs the combination in `text`"@),
        }
    } else if name == "type"@ || name == "write"@ {
        match json_str_member(args, "text"@) {
            Some(t) => Ok(ActionView::Type(t)),
            None => Err("`type` needs `text`"@),
        }
    } else if name == "scroll"@ {
        match point_of(args) {
            Some((x, y)) => Ok(ActionView::Scroll(x, y, scroll_dir_of(args),
                (match json_i64_member(args, "scroll_amount"@) { Some(a) => a, None => 3 }) as i32)),
            None => Err(needs_point("scroll"@)),
        }
    } else if name == "wait"@ {
        let d = match duration_ms { Some(d) => d, None => 1000 };
        Ok(ActionView::Wait(if d > 30000 { 30000 } else { d }))
    } else if name == "zoom"@ {
        match json_array_len(args, "region"@) {
            None => Err("`zoom` needs a `region`"@),
            Some(n) => if n < 4 {
                Err("`zoom` region must be [x1, y1, x2, y2]"@)
            } else {
                Ok(ActionView::Zoom((
                    (match json_i64_item(args, "region"@, 0) { Some(a) => a, None => 0 }) as i32,
                    (match json_i64_item(args, "region"@, 1) { Some(a) => a, None => 0 }) as i32,
                    (match json_i64_item(args, "region"@, 2) { Some(a) => a, None => 0 }) as i32,
                    (match json_i64_item(args, "region"@, 3) { Some(a) => a, None => 0 }) as i32,
                )))
            },
        }
    } else if name.len() == 0 {
        Err("no `action` given"@)
    } else {
        Err("unknown action `"@ + name + "`"@)
    }
}

fn coord(args: &str, key: &str) -> (r: Option<(i32, i32)>)
    ensures
        r == coord_of(args@, key@),
{
    match array_len(args, key) {
        Some(n) => {
            if n < 2 {
                return None;
            }
            match (i64_item(args, key, 0), i64_item(args, key, 1)) {
                (Some(a), Some(b)) => Some((a as i32, b as i32)),
                _ => None,
            }
        }
        None => None,
    }
}

fn point(args: &str) -> (r: Option<(i32, i32)>)
    ensures
        r == point_of(args@),
{
    match coord(args, "coordinate") {
        Some(c) => Some(c),
        None => match (i64_member(args, "x"), i64_member(args, "y")) {
            (Some(x), Some(y)) => Some((x as i32, y as i32)),
            _ => None,
        },
    }
}

fn needs_point_msg(name: &str) -> (r: String)
    ensures
        r@ == needs_point(name@),
{
    let mut s = String::from_str("`");
    push_str(&mut s, name);
    push_str(&mut s, "` needs a `coordinate` of [x, y]");
    s
}

fn combo(args: &str) -> (r: Option<String>)
    ensures
        match combo_of(args@) {
            Some(c) => r matches Some(s) && s@ == c,
            None => r is None,
        },
{
    match member_text(args, "text") {
        Some(_) => str_member(args, "text"),
        None => str_member(args, "key"),
    }
}

fn scroll_dir(args: &str) -> (r: ScrollDirection)
    ensures
        r == scroll_dir_of(args@),
{
    let d = match str_member(args, "scroll_direction") {
        Some(s) => s,
        None => String::from_str("down"),
    };
    let dv = lower_vec(&chars_of(d.as_str()));
    let low = string_of(&dv);
    if str_eq(low.as_str(), "up") {
        ScrollDirection::Up
    } else if str_eq(low.as_str(), "left") {
        ScrollDirection::Left
    } else if str_eq(low.as_str(), "right") {
        ScrollDirection::Right
    } else {
        ScrollDirection::Down
    }
}

fn i64_or(v: Option<i64>, d: i64) -> (r: i64)
    ensures
        r == match v { Some(a) => a, None => d },
{
    match v {
        Some(a) => a,
        None => d,
    }
}

impl Action {
    /// Parses one action out of the model's tool call: `args` is the call's
    /// arguments as JSON text and `duration_ms` their `duration` (seconds)
    /// in whole milliseconds, when it is a number.
    pub fn parse(args: &str, duration_ms: Option<u64>) -> (r: Result<Action, String>)
        ensures
            match action_of(args@, duration_ms) {
                Ok(a) => r matches Ok(x) && x@ == a,
                Err(e) => r matches Err(m) && m@ == e,
            },
    {
        let raw = member_or_empty(args, "action");
        let t = trimmed(raw.as_str());
        let nv = lower_vec(&chars_of(t.as_str()));
        let name = string_of(&nv);
        let n = name.as_str();
        assert(n@ == action_name(args@));
        if str_eq(n, "screenshot") {
            Ok(Action::Screenshot)
        } else if str_eq(n, "cursor_position") {
            Ok(Action::CursorPosition)
        } else if str_eq(n, "mouse_move") {
            match point(args) {
                Some((x, y)) => Ok(Action::MouseMove { x, y }),
                None => Err(needs_point_msg("mouse_move")),
            }
        } else if str_eq(n, "left_click") || str_eq(n, "click") {
            match point(args) {
                Some((x, y)) => Ok(Action::LeftClick { x, y }),
                None => Err(needs_point_msg("left_click")),
            }
        } else if str_eq(n, "right_click") {
            match point(args) {
                Some((x, y)) => Ok(Action::RightClick { x, y }),
                None => Err(needs_point_msg("right_click")),
            }
        } else if str_eq(n, "middle_click") {
            match point(args) {
                Some((x, y)) => Ok(Action::MiddleClick { x, y }),
                None => Err(needs_point_msg("middle_click")),
            }
        } else if str_eq(n, "double_click") {
            match point(args) {
                Some((x, y)) => Ok(Action::DoubleClick { x, y }),
                None => Err(needs_point_msg("double_click")),
            }
        } else if str_eq(n, "triple_click") {
            match point(args) {
                Some((x, y)) => Ok(Action::TripleClick { x, y }),
                None => Err(needs_point_msg("triple_click")),
            }
        } else if str_eq(n, "left_mouse_down") {
            Ok(Action::LeftMouseDown)
        } else if str_eq(n, "left_mouse_up") {
            Ok(Action::LeftMouseUp)
        } else {
            Action::parse_rest(args, n, duration_ms)
        }
    }

    fn parse_rest(args: &str, n: &str, duration_ms: Option<u64>) -> (r: Result<Action, String>)
        requires
            n@ == action_name(args@),
            n@ != "screenshot"@, n@ != "cursor_position"@, n@ != "mouse_move"@, n@ != "left_click"@,
            n@ != "click"@, n@ != "right_click"@, n@ != "middle_click"@, n@ != "double_click"@,
            n@ != "triple_click"@, n@ != "left_mouse_down"@, n@ != "left_mouse_up"@,
        ensures
            match action_of(args@, duration_ms) {
                Ok(a) => r matches Ok(x) && x@ == a,
                Err(e) => r matches Err(m) && m@ == e,
            },
    {
        if str_eq(n, "left_click_drag") {
            match point(args) {
                None => Err(needs_point_msg("left_click_drag")),
                Some(to) => match coord(args, "start_coordinate") {
                    Some(from) => Ok(Action::LeftClickDrag { from, to }),
                    None => Err(String::from_str("`left_click_drag` needs `start_coordinate`")),
                },
            }
        } else if str_eq(n, "key") || str_eq(n, "keypress") || str_eq(n, "press") {
            match combo(args) {
                Some(c) => Ok(Action::Key { combo: c }),
                None => Err(String::from_str("`key` needs the combination in `text`")),
            }
        } else if str_eq(n, "hold_key") {
            match combo(args) {
                Some(c) => Ok(Action::HoldKey { combo: c, millis: match duration_ms { Some(d) => d, None => 1000 } }),
                None => Err(String::from_str("`key` needs the combination in `text`")),
            }
        } else if str_eq(n, "type") || str_eq(n, "write") {
            match str_member(args, "text") {
                Some(t) => Ok(Action::Type { text: t }),
                None => Err(String::from_str("`type` needs `text`")),
            }
        } else if str_eq(n, "scroll") {
            match point(args) {
                Some((x, y)) => {
                    let direction = scroll_dir(args);
                    let amount = i64_or(i64_member(args, "scroll_amount"), 3) as i32;
                    Ok(Action::Scroll { x, y, direction, amount })
                }
                None => Err(needs_point_msg("scroll")),
            }
        } else if str_eq(n, "wait") {
            let d = match duration_ms { Some(d) => d, None => 1000 };
            Ok(Action::Wait { millis: if d > 30000 { 30000 } else { d } })
        } else if str_eq(n, "zoom") {
            match array_len(args, "region") {
                None => Err(String::from_str("`zoom` needs a `region`")),
                Some(len) => {
                    if len < 4 {
                        Err(String::from_str("`zoom` region must be [x1, y1, x2, y2]"))
                    } else {
                        let a = i64_or(i64_item(args, "region", 0), 0) as i32;
                        let b = i64_or(i64_item(args, "region", 1), 0) as i32;
                        let c = i64_or(i64_item(args, "region", 2), 0) as i32;
                        let d = i64_or(i64_item(args, "region", 3), 0) as i32;
                        Ok(Action::Zoom { region: (a, b, c, d) })
                    }
                }
            }
        } else if n.is_empty() {
            Err(String::from_str("no `action` given"))
        } else {
            let mut m = String::from_str("unknown action `");
            push_str(&mut m, n);
            push_str(&mut m, "`");
            Err(m)
        }
    }

    /// Does this action only look? Read-only actions can skip the approval
    /// prompt; anything that touches the desktop should not.
    pub fn is_read_only(&self) -> (r: bool)
        ensures
            r == (self@ is Screenshot || self@ is CursorPosition || self@ is Zoom || self@ is Wait),
    {
        match self {
            Action::Screenshot | Action::CursorPosition | Action::Zoom { .. } | Action::Wait { .. } => true,
            _ => false,
        }
    }
}

// ── Describing and rescaling actions ───────────────────────────────────────

/// A duration in seconds as `f64`'s `Display` writes a whole number of
/// milliseconds: no fraction when there is none, else no trailing zeros.
pub open spec fn secs_text(ms: u64) -> Seq<char> {
    let whole = decimal((ms / 1000) as nat);
    let f = (ms % 1000) as nat;
    if f == 0 {
        whole
    } else if f % 100 == 0 {
        whole + seq!['.', crate::text::digit_char(f / 100)]
    } else if f % 10 == 0 {
        whole + seq!['.', crate::text::digit_char(f / 100), crate::text::digit_char(f / 10)]
    } else {
        whole + seq!['.', crate::text::digit_char(f / 100), crate::text::digit_char(f / 10), crate::text::digit_char(f)]
    }
}

pub open spec fn xy_text(x: i32, y: i32) -> Seq<char> {
    int_decimal(x as int) + ", "@ + int_decimal(y as int)
}

pub open spec fn dir_word(d: ScrollDirection) -> Seq<char> {
    match d {
        ScrollDirection::Up => "up"@,
        ScrollDirection::Down => "down"@,
        ScrollDirection::Left => "left"@,
        ScrollDirection::Right => "right"@,
    }
}

/// The one-line description of an action, in the model's coordinates.
pub open spec fn describe_of(a: ActionView) -> Seq<char> {
    match a {
        ActionView::Screenshot => "take a screenshot"@,
        ActionView::CursorPosition => "read the cursor position"@,
        ActionView::MouseMove(x, y) => "move the pointer to "@ + xy_text(x, y),
        ActionView::LeftClick(x, y) => "click at "@ + xy_text(x, y),
        ActionView::RightClick(x, y) => "right-click at "@ + xy_text(x, y),
        ActionView::MiddleClick(x, y) => "middle-click at "@ + xy_text(x, y),
        ActionView::DoubleClick(x, y) => "double-click at "@ + xy_text(x, y),
        ActionView::TripleClick(x, y) => "triple-click at "@ + xy_text(x, y),
        ActionView::LeftMouseDown => "press and hold the left button"@,
        ActionView::LeftMouseUp => "release the left button"@,
        ActionView::LeftClickDrag(f, t) => "drag from "@ + xy_text(f.0, f.1) + " to "@ + xy_text(t.0, t.1),
        ActionView::Key(c) => "press "@ + c,
        ActionView::HoldKey(c, ms) => "hold "@ + c + " for "@ + secs_text(ms) + "s"@,
        ActionView::Type(t) => "type \u{201c}"@ + t.take(if t.len() < 40 { t.len() as int } else { 40 })
            + (if t.len() > 40 { "…"@ } else { Seq::<char>::empty() }) + "\u{201d}"@,
        ActionView::Scroll(x, y, d, n) => "scroll "@ + dir_word(d) + " "@ + int_decimal(n as int) + " at "@ + xy_text(x, y),
        ActionView::Wait(ms) => "wait "@ + secs_text(ms) + "s"@,
        ActionView::Zoom(r) => "zoom into "@ + xy_text(r.0, r.1) + " – "@ + xy_text(r.2, r.3),
    }
}

fn push_xy(out: &mut String, x: i32, y: i32)
    ensures
        final(out)@ == old(out)@ + xy_text(x, y),
{
    push_int(out, x as i64);
    push_str(out, ", ");
    push_int(out, y as i64);
}

fn push_secs(out: &mut String, ms: u64)
    ensures
        final(out)@ == old(out)@ + secs_text(ms),
{
    push_decimal(out, (ms / 1000) as u128);
    let f = ms % 1000;
    if f != 0 {
        push_char(out, '.');
        push_char(out, digit(f / 100));
        if f % 100 != 0 {
            push_char(out, digit((f / 10) % 10));
            if f % 10 != 0 {
                push_char(out, digit(f % 10));
            }
        }
    }
    assert(final(out)@ =~= old(out)@ + secs_text(ms));
}

fn digit(d: u64) -> (c: char)
    requires
        d < 10,
    ensures
        c == crate::text::digit_char(d as nat),
{
    let b = (48 + d) as u8;
    b as char
}

fn xy_msg(prefix: &str, x: i32, y: i32) -> (r: String)
    ensures
        r@ == prefix@ + xy_text(x, y),
{
    let mut s = String::from_str(prefix);
    push_xy(&mut s, x, y);
    s
}

/// Keeps a point on a display: each axis is mapped to the screen.
pub open spec fn point_to_real(d: VirtualDisplay, x: i32, y: i32) -> (i32, i32) {
    (real_coord(x as int, d.real_width as int, d.width as int) as i32,
        real_coord(y as int, d.real_height as int, d.height as int) as i32)
}

/// An action with its coordinates moved from the model's space to screen
/// pixels; actions without coordinates are unchanged.
pub open spec fn action_to_real(a: ActionView, d: VirtualDisplay) -> ActionView {
    match a {
        ActionView::MouseMove(x, y) => { let p = point_to_real(d, x, y); ActionView::MouseMove(p.0, p.1) },
        ActionView::LeftClick(x, y) => { let p = point_to_real(d, x, y); ActionView::LeftClick(p.0, p.1) },
        ActionView::RightClick(x, y) => { let p = point_to_real(d, x, y); ActionView::RightClick(p.0, p.1) },
        ActionView::MiddleClick(x, y) => { let p = point_to_real(d, x, y); ActionView::MiddleClick(p.0, p.1) },
        ActionView::DoubleClick(x, y) => { let p = point_to_real(d, x, y); ActionView::DoubleClick(p.0, p.1) },
        ActionView::TripleClick(x, y) => { let p = point_to_real(d, x, y); ActionView::TripleClick(p.0, p.1) },
        ActionView::LeftClickDrag(f, t) => ActionView::LeftClickDrag(point_to_real(d, f.0, f.1), point_to_real(d, t.0, t.1)),
        ActionView::Scroll(x, y, dir, n) => { let p = point_to_real(d, x, y); ActionView::Scroll(p.0, p.1, dir, n) },
        ActionView::Zoom(r) => {
            let a = point_to_real(d, r.0, r.1);
            let b = point_to_real(d, r.2, r.3);
            ActionView::Zoom((a.0, a.1, b.0, b.1))
        },
        other => other,
    }
}

impl Action {
    /// One-line description for the transcript and the approval prompt, in
    /// the model's coordinate space.
    pub fn describe(&self) -> (r: String)
        ensures
            r@ == describe_of(self@),
    {
        match self {
            Action::Screenshot => String::from_str("take a screenshot"),
            Action::CursorPosition => String::from_str("read the cursor position"),
            Action::MouseMove { x, y } => xy_msg("move the pointer to ", *x, *y),
            Action::LeftClick { x, y } => xy_msg("click at ", *x, *y),
            Action::RightClick { x, y } => xy_msg("right-click at ", *x, *y),
            Action::MiddleClick { x, y } => xy_msg("middle-click at ", *x, *y),
            Action::DoubleClick { x, y } => xy_msg("double-click at ", *x, *y),
            Action::TripleClick { x, y } => xy_msg("triple-click at ", *x, *y),
            Action::LeftMouseDown => String::from_str("press and hold the left button"),
            Action::LeftMouseUp => String::from_str("release the left button"),
            Action::LeftClickDrag { from, to } => {
                let mut s = xy_msg("drag from ", from.0, from.1);
                push_str(&mut s, " to ");
                push_xy(&mut s, to.0, to.1);
                s
            }
            Action::Key { combo } => {
                let mut s = String::from_str("press ");
                push_str(&mut s, combo.as_str());
                s
            }
            Action::HoldKey { combo, millis } => {
                let mut s = String::from_str("hold ");
                push_str(&mut s, combo.as_str());
                push_str(&mut s, " for ");
                push_secs(&mut s, *millis);
                push_str(&mut s, "s");
                s
            }
            Action::Type { text } => {
                let v = chars_of(text.as_str());
                let k = if v.len() < 40 { v.len() } else { 40 };
                let mut s = String::from_str("type \u{201c}");
                push_range(&mut s, &v, 0, k);
                if v.len() > 40 {
                    push_str(&mut s, "…");
                }
                push_str(&mut s, "\u{201d}");
                assert(v@.subrange(0, k as int) =~= v@.take(k as int));
                s
            }
            Action::Scroll { x, y, direction, amount } => {
                let mut s = String::from_str("scroll ");
                push_str(&mut s, match direction {
                    ScrollDirection::Up => "up",
                    ScrollDirection::Down => "down",
                    ScrollDirection::Left => "left",
                    ScrollDirection::Right => "right",
                });
                push_str(&mut s, " ");
                push_int(&mut s, *amount as i64);
                push_str(&mut s, " at ");
                push_xy(&mut s, *x, *y);
                s
            }
            Action::Wait { millis } => {
                let mut s = String::from_str("wait ");
                push_secs(&mut s, *millis);
                push_str(&mut s, "s");
                s
            }
            Action::Zoom { region } => {
                let mut s = xy_msg("zoom into ", region.0, region.1);
                push_str(&mut s, " – ");
                push_xy(&mut s, region.2, region.3);
                s
            }
        }
    }

    /// This action with its coordinates rewritten from the model's space
    /// into screen pixels. Call it once, immediately before execution.
    pub fn to_real(&self, d: &VirtualDisplay) -> (r: Action)
        requires
            has_point(self@) ==> d.maps_points(),
        ensures
            r@ == action_to_real(self@, *d),
    {
        match self {
            Action::MouseMove { x, y } => { let (x, y) = d.to_real(*x, *y); Action::MouseMove { x, y } }
            Action::LeftClick { x, y } => { let (x, y) = d.to_real(*x, *y); Action::LeftClick { x, y } }
            Action::RightClick { x, y } => { let (x, y) = d.to_real(*x, *y); Action::RightClick { x, y } }
            Action::MiddleClick { x, y } => { let (x, y) = d.to_real(*x, *y); Action::MiddleClick { x, y } }
            Action::DoubleClick { x, y } => { let (x, y) = d.to_real(*x, *y); Action::DoubleClick { x, y } }
            Action::TripleClick { x, y } => { let (x, y) = d.to_real(*x, *y); Action::TripleClick { x, y } }
            Action::LeftClickDrag { from, to } => Action::LeftClickDrag {
                from: d.to_real(from.0, from.1),
                to: d.to_real(to.0, to.1),
            },
            Action::Scroll { x, y, direction, amount } => {
                let (x, y) = d.to_real(*x, *y);
                Action::Scroll { x, y, direction: *direction, amount: *amount }
            }
            Action::Zoom { region } => {
                let (x1, y1) = d.to_real(region.0, region.1);
                let (x2, y2) = d.to_real(region.2, region.3);
                Action::Zoom { region: (x1, y1, x2, y2) }
            }
            Action::Screenshot => Action::Screenshot,
            Action::CursorPosition => Action::CursorPosition,
            Action::LeftMouseDown => Action::LeftMouseDown,
            Action::LeftMouseUp => Action::LeftMouseUp,
            Action::Key { combo } => Action::Key { combo: combo.clone() },
            Action::HoldKey { combo, millis } => Action::HoldKey { combo: combo.clone(), millis: *millis },
            Action::Type { text } => Action::Type { text: text.clone() },
            Action::Wait { millis } => Action::Wait { millis: *millis },
        }
    }
}

/// Rescaling keeps what an action is and only moves it onto the screen:
/// every point of the rescaled action lies on the screen, and an action
/// without coordinates is unchanged.
pub proof fn lemma_to_real_on_screen(a: ActionView, d: VirtualDisplay)
    requires
        1 <= d.real_width <= i32::MAX,
        1 <= d.real_height <= i32::MAX,
    ensures
        ({
            let p = |x: i32, y: i32| 0 <= x < d.real_width && 0 <= y < d.real_height;
            match action_to_real(a, d) {
                ActionView::MouseMove(x, y) => p(x, y),
                ActionView::LeftClick(x, y) => p(x, y),
                ActionView::RightClick(x, y) => p(x, y),
                ActionView::MiddleClick(x, y) => p(x, y),
                ActionView::DoubleClick(x, y) => p(x, y),
                ActionView::TripleClick(x, y) => p(x, y),
                ActionView::LeftClickDrag(f, t) => p(f.0, f.1) && p(t.0, t.1),
                ActionView::Scroll(x, y, _, _) => p(x, y),
                ActionView::Zoom(r) => p(r.0, r.1) && p(r.2, r.3),
                _ => action_to_real(a, d) == a,
            }
        }),
{
    assert forall|v: int, full: int, virt: int| 1 <= full implies 0 <= #[trigger] real_coord(v, full, virt) < full by {
        if virt != 0 {
        }
    }
}

/// The tool declaration handed to the model, as JSON text, in the shape of
/// Anthropic's `computer` tool: it reports the virtual size, not the real one.
pub open spec fn declaration_of(d: VirtualDisplay) -> Seq<char> {
    "{\"type\":\"computer_20250124\",\"name\":\"computer\",\"display_width_px\":"@ + decimal(d.width as nat)
        + ",\"display_height_px\":"@ + decimal(d.height as nat) + ",\"display_number\":1}"@
}

pub fn tool_declaration(d: &VirtualDisplay) -> (r: String)
    ensures
        r@ == declaration_of(*d),
{
    let mut s = String::from_str("{\"type\":\"computer_20250124\",\"name\":\"computer\",\"display_width_px\":");
    push_decimal(&mut s, d.width as u128);
    push_str(&mut s, ",\"display_height_px\":");
    push_decimal(&mut s, d.height as u128);
    push_str(&mut s, ",\"display_number\":1}");
    s
}


// ── The `computer` tool ────────────────────────────────────────────────────

pub const CU_HEAD: &'static str = "Control this computer by looking at the screen and using the mouse and keyboard. The screen is ";
pub const CU_TAIL: &'static str = ". All coordinates are in that space, with [0, 0] at the top-left. Take a screenshot first to see what is there, then act. Actions: screenshot, left_click, right_click, middle_click, double_click, triple_click, mouse_move, left_click_drag, left_mouse_down, left_mouse_up, scroll, key, hold_key, type, cursor_position, wait, zoom. Pass a position as \"coordinate\": [x, y]; text to type or a key combination like \"ctrl+s\" as \"text\".";

/// The tool the model calls to look at the screen and act on it: every
/// action but a look returns a fresh screenshot, so the model never acts on
/// a stale picture.
pub struct ComputerUseTool {
    /// The coordinate space the model is told to work in.
    pub display: VirtualDisplay,
}

/// What a call asks of the desktop.
pub enum CuStep {
    /// Nothing to do on the desktop: this is the answer.
    Answer(crate::tools::ToolResult),
    /// Read the pointer position.
    Cursor,
    /// Carry out `action` (already in screen pixels), described as `described`.
    Act { action: Action, described: String },
}

pub open spec fn cu_size_text(d: VirtualDisplay) -> Seq<char> {
    decimal(d.width as nat) + "x"@ + decimal(d.height as nat)
}

impl ComputerUseTool {
    pub fn new(display: VirtualDisplay) -> (r: ComputerUseTool)
        ensures
            r.display == display,
    {
        ComputerUseTool { display }
    }

    pub fn info(&self) -> (r: crate::tools::ToolInfo)
        ensures
            r.name@ == "computer"@,
            r.description@ == CU_HEAD@ + cu_size_text(self.display) + CU_TAIL@,
            r.safety == crate::tools::ToolSafety::Destructive,
            r.parameters@.len() == 5,
            crate::tools::param_is(r.parameters@[0], "action"@, "string"@, true, "Which action to take."@),
            crate::tools::param_is(r.parameters@[1], "coordinate"@, "array"@, false,
                "[x, y] within "@ + cu_size_text(self.display) + "."@),
            crate::tools::param_is(r.parameters@[2], "text"@, "string"@, false, "Text to type, or a key combination."@),
            crate::tools::param_is(r.parameters@[3], "scroll_direction"@, "string"@, false, "up | down | left | right"@),
            crate::tools::param_is(r.parameters@[4], "scroll_amount"@, "number"@, false, "Number of wheel clicks."@),
    {
        let mut size = String::new();
        push_decimal(&mut size, self.display.width as u128);
        push_str(&mut size, "x");
        push_decimal(&mut size, self.display.height as u128);
        let mut description = String::from_str(CU_HEAD);
        push_str(&mut description, size.as_str());
        push_str(&mut description, CU_TAIL);
        let mut within = String::from_str("[x, y] within ");
        push_str(&mut within, size.as_str());
        push_str(&mut within, ".");
        let coordinate = crate::tools::ToolParam {
            name: String::from_str("coordinate"),
            description: within,
            required: false,
            param_type: String::from_str("array"),
        };
        crate::tools::ToolInfo {
            name: String::from_str("computer"),
            description,
            safety: crate::tools::ToolSafety::Destructive,
            parameters: vec![
                crate::tools::param("action", "string", true, "Which action to take."),
                coordinate,
                crate::tools::param("text", "string", false, "Text to type, or a key combination."),
                crate::tools::param("scroll_direction", "string", false, "up | down | left | right"),
                crate::tools::param("scroll_amount", "number", false, "Number of wheel clicks."),
            ],
        }
    }

    pub fn safety(&self) -> (r: crate::tools::ToolSafety)
        ensures
            r == crate::tools::ToolSafety::Destructive,
    {
        crate::tools::ToolSafety::Destructive
    }

    /// Reads the call (`duration_ms` as for [`Action::parse`]): an action
    /// that does not parse is refused with its error; the cursor position is
    /// read; anything else is rescaled into screen pixels, once, right before
    /// it is carried out.
    pub fn prepare(&self, args: &str, duration_ms: Option<u64>) -> (r: CuStep)
        requires
            action_of(args@, duration_ms) matches Ok(a) && has_point(a) ==> self.display.maps_points(),
        ensures
            match action_of(args@, duration_ms) {
                Err(e) => r matches CuStep::Answer(res) && crate::tools::is_failure(res, e),
                Ok(a) => if a is CursorPosition {
                    r is Cursor
                } else {
                    r matches CuStep::Act { action, described } && action@ == action_to_real(a, self.display)
                        && described@ == describe_of(a)
                },
            },
    {
        match Action::parse(args, duration_ms) {
            Err(e) => CuStep::Answer(crate::tools::failure(e)),
            Ok(a) => {
                if let Action::CursorPosition = a {
                    CuStep::Cursor
                } else {
                    let described = a.describe();
                    CuStep::Act { action: a.to_real(&self.display), described }
                }
            },
        }
    }

    /// The answer to a cursor read: the position in the model's space, not
    /// in real pixels.
    pub fn cursor_done(&self, at: Result<(i32, i32), String>) -> (r: crate::tools::ToolResult)
        requires
            1 <= self.display.width <= i32::MAX,
            1 <= self.display.height <= i32::MAX,
        ensures
            match at {
                Ok((x, y)) => crate::tools::is_success(r, "cursor is at "@
                    + int_decimal(virt_coord(x as int, self.display.real_width as int, self.display.width as int))
                    + ", "@ + int_decimal(virt_coord(y as int, self.display.real_height as int, self.display.height as int))),
                Err(e) => crate::tools::is_failure(r, e@),
            },
    {
        match at {
            Ok((x, y)) => {
                let (vx, vy) = self.display.to_virtual(x, y);
                let mut s = String::from_str("cursor is at ");
                push_int(&mut s, vx as i64);
                push_str(&mut s, ", ");
                push_int(&mut s, vy as i64);
                crate::tools::success(s)
            }
            Err(e) => crate::tools::failure(e),
        }
    }

    /// The answer when the desktop refused the action.
    pub fn act_failed(&self, described: &str, error: &str) -> (r: crate::tools::ToolResult)
        ensures
            crate::tools::is_failure(r, "couldn't "@ + described@ + ": "@ + error@),
    {
        let mut s = String::from_str("couldn't ");
        push_str(&mut s, described);
        push_str(&mut s, ": ");
        push_str(&mut s, error);
        crate::tools::failure(s)
    }

    /// The answer once the action is done, with the screenshot taken after
    /// it (its file path), or a note that none could be taken.
    pub fn act_done(&self, described: &str, capture: Result<String, String>) -> (r: crate::tools::ToolResult)
        ensures
            r.ok,
            r.error is None,
            r.elapsed_ms == 0,
            match capture {
                Ok(path) => (r.output matches Some(o) && o@ == "did: "@ + described@) && (r.media matches Some(m) && m@ == path@),
                Err(e) => (r.output matches Some(o) && o@ == "did: "@ + described@
                    + " (couldn't capture the screen afterwards: "@ + e@ + ")"@) && r.media is None,
            },
    {
        let mut s = String::from_str("did: ");
        push_str(&mut s, described);
        match capture {
            Ok(path) => crate::tools::ToolResult { ok: true, output: Some(s), error: None, media: Some(path), elapsed_ms: 0 },
            Err(e) => {
                push_str(&mut s, " (couldn't capture the screen afterwards: ");
                push_str(&mut s, e.as_str());
                push_str(&mut s, ")");
                crate::tools::ToolResult { ok: true, output: Some(s), error: None, media: None, elapsed_ms: 0 }
            }
        }
    }
}

} // verus!
