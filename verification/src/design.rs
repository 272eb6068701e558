//! Styling for the design previews: one accent colour, dim text, bold, and
//! background bands and badges, all switched off when colour is off.

use vstd::prelude::*;
use crate::text::{chars_of, decimal, push_char, push_decimal, push_str, to_uppercase, unicode_uppercase};

verus! {

/// Whether colour codes are written at all.
#[derive(Debug, Clone, Copy, PartialEq, Eq, Structural)]
pub struct Style {
    pub on: bool,
}

/// An RGB colour.
pub type Rgb = (u8, u8, u8);

pub open spec fn rgb_text(c: Rgb) -> Seq<char> {
    decimal(c.0 as nat) + seq![';'] + decimal(c.1 as nat) + seq![';'] + decimal(c.2 as nat)
}

fn push_rgb(out: &mut String, c: Rgb)
    ensures
        final(out)@ == old(out)@ + rgb_text(c),
{
    push_decimal(out, c.0 as u128);
    push_char(out, ';');
    push_decimal(out, c.1 as u128);
    push_char(out, ';');
    push_decimal(out, c.2 as u128);
}

/// `s` between an SGR code and a full reset.
pub open spec fn wrapped(on: bool, code: Seq<char>, s: Seq<char>) -> Seq<char> {
    if on { "\x1b["@ + code + "m"@ + s + "\x1b[0m"@ } else { s }
}

impl Style {
    pub fn wrap(&self, code: &str, s: &str) -> (r: String)
        ensures
            r@ == wrapped(self.on, code@, s@),
    {
        if self.on {
            let mut r = String::from_str("\x1b[");
            push_str(&mut r, code);
            push_str(&mut r, "m");
            push_str(&mut r, s);
            push_str(&mut r, "\x1b[0m");
            r
        } else {
            s.to_string()
        }
    }

    /// The single accent: brand blue.
    pub fn accent(&self, s: &str) -> (r: String)
        ensures
            r@ == wrapped(self.on, "38;2;77;124;255"@, s@),
    {
        self.wrap("38;2;77;124;255", s)
    }

    /// Secondary text: dim rather than a second hue.
    pub fn dim(&self, s: &str) -> (r: String)
        ensures
            r@ == wrapped(self.on, "38;2;108;108;124"@, s@),
    {
        self.wrap("38;2;108;108;124", s)
    }

    /// Bold, closed with `22` (bold off) so a surrounding background band
    /// keeps its fill.
    pub fn bold(&self, s: &str) -> (r: String)
        ensures
            r@ == if self.on { "\x1b[1m"@ + s@ + "\x1b[22m"@ } else { s@ },
    {
        if self.on {
            let mut r = String::from_str("\x1b[1m");
            push_str(&mut r, s);
            push_str(&mut r, "\x1b[22m");
            r
        } else {
            s.to_string()
        }
    }

    pub fn ok(&self, s: &str) -> (r: String)
        ensures
            r@ == wrapped(self.on, "38;2;63;185;80"@, s@),
    {
        self.wrap("38;2;63;185;80", s)
    }

    pub fn warn(&self, s: &str) -> (r: String)
        ensures
            r@ == wrapped(self.on, "38;2;210;153;34"@, s@),
    {
        self.wrap("38;2;210;153;34", s)
    }

    /// A foreground colour, closed with `39` (default foreground).
    pub fn fg(&self, c: Rgb, s: &str) -> (r: String)
        ensures
            r@ == if self.on { "\x1b[38;2;"@ + rgb_text(c) + "m"@ + s@ + "\x1b[39m"@ } else { s@ },
    {
        if self.on {
            let mut r = String::from_str("\x1b[38;2;");
            push_rgb(&mut r, c);
            push_str(&mut r, "m");
            push_str(&mut r, s);
            push_str(&mut r, "\x1b[39m");
            r
        } else {
            s.to_string()
        }
    }

    /// A full-width band (`W` columns) with background `bg`: `plain_len` is
    /// the visible length of `styled`, which the escape codes would corrupt.
    pub fn band(&self, bg: Rgb, styled: &str, plain_len: usize) -> (r: String)
        ensures
            r@ == if self.on {
                "\x1b[48;2;"@ + rgb_text(bg) + "m"@ + styled@ + spaces(pad_of(plain_len)) + "\x1b[0m"@
            } else {
                styled@ + spaces(pad_of(plain_len))
            },
    {
        let pad = if plain_len < W { W - plain_len } else { 0 };
        let mut r = String::new();
        if self.on {
            push_str(&mut r, "\x1b[48;2;");
            push_rgb(&mut r, bg);
            push_str(&mut r, "m");
        }
        push_str(&mut r, styled);
        push_spaces(&mut r, pad);
        if self.on {
            push_str(&mut r, "\x1b[0m");
        }
        r
    }

    /// A filled badge; `back_to` is the background of the row it sits in,
    /// restored after it.
    pub fn badge(&self, bg: Rgb, fg: Rgb, text: &str, back_to: Rgb) -> (r: String)
        ensures
            r@ == if self.on {
                "\x1b[48;2;"@ + rgb_text(bg) + "m\x1b[38;2;"@ + rgb_text(fg) + "m "@ + text@ + " \x1b[48;2;"@
                    + rgb_text(back_to) + "m\x1b[39m"@
            } else {
                "["@ + text@ + "]"@
            },
    {
        if !self.on {
            let mut r = String::from_str("[");
            push_str(&mut r, text);
            push_str(&mut r, "]");
            return r;
        }
        let mut r = String::from_str("\x1b[48;2;");
        push_rgb(&mut r, bg);
        push_str(&mut r, "m\x1b[38;2;");
        push_rgb(&mut r, fg);
        push_str(&mut r, "m ");
        push_str(&mut r, text);
        push_str(&mut r, " \x1b[48;2;");
        push_rgb(&mut r, back_to);
        push_str(&mut r, "m\x1b[39m");
        r
    }

    /// A section label: uppercased, letter-spaced, dim.
    pub fn label(&self, s: &str) -> (r: String)
        ensures
            r@ == wrapped(self.on, "38;2;108;108;124"@, spaced(unicode_uppercase(s@))),
    {
        let up = to_uppercase(s);
        let v = chars_of(up.as_str());
        let mut out = String::new();
        let mut i: usize = 0;
        while i < v.len()
            invariant
                i <= v@.len(),
                out@ == spaced(v@.take(i as int)),
            decreases v@.len() - i,
        {
            if i > 0 {
                push_char(&mut out, ' ');
            }
            push_char(&mut out, v[i]);
            i = i + 1;
            assert(v@.take(i as int).drop_last() =~= v@.take(i - 1));
            assert(out@ =~= spaced(v@.take(i as int)));
        }
        assert(v@.take(v@.len() as int) =~= v@);
        self.dim(out.as_str())
    }
}

/// The width of a band.
pub const W: usize = 84;

pub open spec fn pad_of(plain_len: usize) -> nat {
    if plain_len < W { (W - plain_len) as nat } else { 0 }
}

pub open spec fn spaces(n: nat) -> Seq<char> {
    Seq::new(n, |i: int| ' ')
}

fn push_spaces(out: &mut String, n: usize)
    ensures
        final(out)@ == old(out)@ + spaces(n as nat),
{
    let mut i: usize = 0;
    while i < n
        invariant
            i <= n,
            out@ == old(out)@ + spaces(i as nat),
        decreases n - i,
    {
        push_char(out, ' ');
        i = i + 1;
        assert(out@ =~= old(out)@ + spaces(i as nat));
    }
}

/// Characters with a space between each two (letter-spacing).
pub open spec fn spaced(s: Seq<char>) -> Seq<char>
    decreases s.len(),
{
    if s.len() == 0 {
        s
    } else if s.len() == 1 {
        s
    } else {
        spaced(s.drop_last()) + seq![' ', s.last()]
    }
}

/// A rating in words, from 0 (won't run) to 4 and up (blazing).
pub open spec fn rank_word_of(rank: u8) -> Seq<char> {
    if rank == 0 { "won't run"@ } else if rank == 1 { "slow"@ } else if rank == 2 { "okay"@ } else if rank == 3 { "great"@ } else { "blazing"@ }
}

pub fn rank_word(rank: u8) -> (r: &'static str)
    ensures
        r@ == rank_word_of(rank),
{
    if rank == 0 { "won't run" } else if rank == 1 { "slow" } else if rank == 2 { "okay" } else if rank == 3 { "great" } else { "blazing" }
}

/// A five-cell meter: `rank + 1` filled cells, in the accent (dim when the
/// model won't run).
pub open spec fn meter_bar(rank: u8) -> Seq<char> {
    Seq::new(5, |i: int| if i < rank as int + 1 { '▰' } else { '▱' })
}

pub fn meter(s: &Style, rank: u8) -> (r: String)
    ensures
        rank == 0 ==> r@ == wrapped(s.on, "38;2;108;108;124"@, meter_bar(rank)),
        rank != 0 ==> r@ == wrapped(s.on, "38;2;77;124;255"@, meter_bar(rank)),
{
    let mut bar = String::new();
    let mut i: u8 = 0;
    while i < 5
        invariant
            i <= 5,
            bar@ == meter_bar(rank).take(i as int),
        decreases 5 - i,
    {
        push_char(&mut bar, if (i as u16) < (rank as u16) + 1 { '▰' } else { '▱' });
        i = i + 1;
        assert(bar@ =~= meter_bar(rank).take(i as int));
    }
    assert(meter_bar(rank).take(5) =~= meter_bar(rank));
    if rank == 0 { s.dim(bar.as_str()) } else { s.accent(bar.as_str()) }
}

/// The partial blocks of an eighth-block gauge.
pub open spec fn eighth(k: nat) -> Seq<char> {
    if k == 1 { seq!['▏'] } else if k == 2 { seq!['▎'] } else if k == 3 { seq!['▍'] } else if k == 4 { seq!['▌'] }
    else if k == 5 { seq!['▋'] } else if k == 6 { seq!['▊'] } else if k == 7 { seq!['▉'] } else if k >= 8 { seq!['█'] }
    else { Seq::empty() }
}

/// A gauge of `cells` cells filled to `total` eighths: solid blocks, then a
/// partial block, then a shaded trough to the full width.
pub open spec fn gauge_parts(total: nat, cells: nat) -> (Seq<char>, Seq<char>) {
    let full = total / 8;
    let rem = total % 8;
    let solid = if full < cells { full } else { cells };
    let partial = full < cells && rem > 0;
    let bar = Seq::new(solid, |i: int| '█') + (if partial { eighth(rem) } else { Seq::empty() });
    let drawn = solid + (if partial { 1nat } else { 0nat });
    let trough_len = if drawn < cells { (cells - drawn) as nat } else { 0 };
    (bar, Seq::new(trough_len, |i: int| '░'))
}

/// An eighth-block gauge filled to `total` eighths of `cells` cells (the
/// caller rounds its fraction to eighths).
pub fn gauge(s: &Style, total: usize, cells: usize) -> (r: String)
    ensures
        r@ == (if s.on { "\x1b[38;2;"@ + rgb_text((77, 124, 255)) + "m"@ + gauge_parts(total as nat, cells as nat).0 + "\x1b[39m"@ } else { gauge_parts(total as nat, cells as nat).0 })
            + (if s.on { "\x1b[38;2;"@ + rgb_text((28, 42, 86)) + "m"@ + gauge_parts(total as nat, cells as nat).1 + "\x1b[39m"@ } else { gauge_parts(total as nat, cells as nat).1 }),
{
    let full = total / 8;
    let rem = total % 8;
    let solid = if full < cells { full } else { cells };
    let partial = full < cells && rem > 0;
    let mut bar = String::new();
    let mut i: usize = 0;
    while i < solid
        invariant
            i <= solid,
            bar@ == Seq::new(i as nat, |j: int| '█'),
        decreases solid - i,
    {
        push_char(&mut bar, '█');
        i = i + 1;
        assert(bar@ =~= Seq::new(i as nat, |j: int| '█'));
    }
    if partial {
        let c = if rem == 1 { '▏' } else if rem == 2 { '▎' } else if rem == 3 { '▍' } else if rem == 4 { '▌' }
            else if rem == 5 { '▋' } else if rem == 6 { '▊' } else { '▉' };
        push_char(&mut bar, c);
    }
    let drawn = solid + if partial { 1 } else { 0 };
    let mut trough = String::new();
    let tl = if drawn < cells { cells - drawn } else { 0 };
    let mut k: usize = 0;
    while k < tl
        invariant
            k <= tl,
            trough@ == Seq::new(k as nat, |j: int| '░'),
        decreases tl - k,
    {
        push_char(&mut trough, '░');
        k = k + 1;
        assert(trough@ =~= Seq::new(k as nat, |j: int| '░'));
    }
    assert(bar@ =~= gauge_parts(total as nat, cells as nat).0);
    assert(trough@ =~= gauge_parts(total as nat, cells as nat).1);
    let mut r = s.fg((77, 124, 255), bar.as_str());
    let t = s.fg((28, 42, 86), trough.as_str());
    push_str(&mut r, t.as_str());
    r
}

/// The sparkline ramp: level 0 to 7.
pub open spec fn ramp(level: nat) -> char {
    if level == 0 { '▁' } else if level == 1 { '▂' } else if level == 2 { '▃' } else if level == 3 { '▄' }
    else if level == 4 { '▅' } else if level == 5 { '▆' } else if level == 6 { '▇' } else { '█' }
}

/// A sparkline from levels 0 to 7 (the caller rounds its values to levels),
/// in the dimmed accent.
pub fn spark(s: &Style, levels: &Vec<u8>) -> (r: String)
    ensures
        r@ == if s.on {
            "\x1b[38;2;"@ + rgb_text((48, 74, 150)) + "m"@ + Seq::new(levels@.len(), |i: int| ramp(levels@[i] as nat)) + "\x1b[39m"@
        } else {
            Seq::new(levels@.len(), |i: int| ramp(levels@[i] as nat))
        },
{
    let mut line = String::new();
    let mut i: usize = 0;
    while i < levels.len()
        invariant
            i <= levels@.len(),
            line@ == Seq::new(i as nat, |j: int| ramp(levels@[j] as nat)),
        decreases levels@.len() - i,
    {
        let l = levels[i];
        let c = if l == 0 { '▁' } else if l == 1 { '▂' } else if l == 2 { '▃' } else if l == 3 { '▄' }
            else if l == 4 { '▅' } else if l == 5 { '▆' } else if l == 6 { '▇' } else { '█' };
        push_char(&mut line, c);
        i = i + 1;
        assert(line@ =~= Seq::new(i as nat, |j: int| ramp(levels@[j] as nat)));
    }
    s.fg((48, 74, 150), line.as_str())
}

} // verus!
