//! Small text helpers for the terminal screens: sizes, context lengths,
//! truncation and wrapping.

use vstd::prelude::*;
use crate::text::{byte_len, chars_of, decimal, digit_char, next_word, push_char, push_decimal, push_range, push_str, string_of, string_of_range, utf8_len, words};

verus! {

/// `n / d` rounded to the nearest integer, ties to even (how `f64`
/// formatting rounds an exact binary fraction).
pub open spec fn round_half_even(n: nat, d: nat) -> nat
    recommends
        d > 0,
{
    let q = n / d;
    let r = n % d;
    if 2 * r > d || (2 * r == d && q % 2 == 1) { q + 1 } else { q }
}

/// `mb / 1024` with one decimal, as `format!("{:.1}", mb as f64 / 1024.0)`
/// writes it.
pub open spec fn gb_tenths(mb: nat) -> Seq<char> {
    let t = round_half_even(mb * 10, 1024);
    decimal(t / 10) + seq!['.', digit_char(t % 10)]
}

fn push_gb(out: &mut String, mb: u64)
    requires
        mb < 0x20_0000_0000_0000,
    ensures
        final(out)@ == old(out)@ + gb_tenths(mb as nat),
{
    let n: u64 = mb * 10;
    let q = n / 1024;
    let r = n % 1024;
    let t = if 2 * r > 1024 || (2 * r == 1024 && q % 2 == 1) { q + 1 } else { q };
    push_decimal(out, (t / 10) as u128);
    push_char(out, '.');
    let d = (t % 10) as u8;
    push_char(out, (48 + d) as char);
    assert(final(out)@ =~= old(out)@ + gb_tenths(mb as nat));
}

/// A size in megabytes as gigabytes: `8.1 GB`. Sizes past 2^53 MB, which an
/// `f64` cannot hold exactly, are left out.
pub fn fmt_gb(mb: u64) -> (r: String)
    requires
        mb < 0x20_0000_0000_0000,
    ensures
        r@ == gb_tenths(mb as nat) + " GB"@,
{
    let mut s = String::new();
    push_gb(&mut s, mb);
    push_str(&mut s, " GB");
    s
}

/// A size in megabytes: gigabytes with one decimal from 1024 MB up
/// (`8.1GB`), else whole megabytes (`512MB`).
pub fn fmt_mb(mb: u64) -> (r: String)
    requires
        mb < 0x20_0000_0000_0000,
    ensures
        mb >= 1024 ==> r@ == gb_tenths(mb as nat) + "GB"@,
        mb < 1024 ==> r@ == decimal(mb as nat) + "MB"@,
{
    let mut s = String::new();
    if mb >= 1024 {
        push_gb(&mut s, mb);
        push_str(&mut s, "GB");
    } else {
        push_decimal(&mut s, mb as u128);
        push_str(&mut s, "MB");
    }
    s
}

/// A context length: `32k` for whole multiples of 1024, thousands (cut
/// down) from 1000 up, else the number.
pub open spec fn ctx_text(ctx: nat) -> Seq<char> {
    if ctx >= 1024 && ctx % 1024 == 0 {
        decimal(ctx / 1024) + "k"@
    } else if ctx >= 1000 {
        decimal(ctx / 1000) + "k"@
    } else {
        decimal(ctx)
    }
}

pub fn fmt_ctx(ctx: u32) -> (r: String)
    ensures
        r@ == ctx_text(ctx as nat),
{
    let mut s = String::new();
    if ctx >= 1024 && ctx % 1024 == 0 {
        push_decimal(&mut s, (ctx / 1024) as u128);
        push_str(&mut s, "k");
    } else if ctx >= 1000 {
        push_decimal(&mut s, (ctx / 1000) as u128);
        push_str(&mut s, "k");
    } else {
        push_decimal(&mut s, ctx as u128);
    }
    s
}

/// At most `max` characters: longer text keeps `max - 1` and ends in `…`.
pub open spec fn truncated(s: Seq<char>, max: nat) -> Seq<char> {
    if s.len() <= max {
        s
    } else {
        s.take(if max == 0 { 0 } else { max - 1 }) + seq!['…']
    }
}

pub fn truncate(s: &str, max: usize) -> (r: String)
    ensures
        r@ == truncated(s@, max as nat),
{
    let v = chars_of(s);
    if v.len() <= max {
        return s.to_string();
    }
    let k = if max == 0 { 0 } else { max - 1 };
    let mut out = string_of_range(&v, 0, k);
    push_char(&mut out, '…');
    assert(v@.subrange(0, k as int) =~= v@.take(k as int));
    out
}

/// The last `max` characters (keeps the input caret in view).
pub open spec fn tail_of(s: Seq<char>, max: nat) -> Seq<char> {
    if s.len() <= max { s } else { s.skip(s.len() - max) }
}

pub fn tail(s: &str, max: usize) -> (r: String)
    ensures
        r@ == tail_of(s@, max as nat),
{
    let v = chars_of(s);
    let n = v.len();
    if n <= max {
        return s.to_string();
    }
    assert(v@.subrange((n - max) as int, n as int) =~= v@.skip(n - max));
    string_of_range(&v, n - max, n)
}

/// `s` cut into pieces of `w` characters (a text no longer than `w` is one
/// piece, even when empty).
pub open spec fn chunks(s: Seq<char>, w: nat) -> Seq<Seq<char>>
    recommends
        w > 0,
    decreases s.len(),
{
    if s.len() <= w || w == 0 {
        seq![s]
    } else {
        seq![s.take(w as int)] + chunks(s.skip(w as int), w)
    }
}

/// Hard wrap at `width` characters (at least one).
pub fn hard_wrap(s: &str, width: usize) -> (r: Vec<String>)
    ensures
        r@.map_values(|x: String| x@) == chunks(s@, if width == 0 { 1 } else { width as nat }),
{
    let w = if width == 0 { 1 } else { width };
    let v = chars_of(s);
    let n = v.len();
    let mut out: Vec<String> = Vec::new();
    let mut i: usize = 0;
    assert(v@.skip(0) =~= v@);
    while n - i > w
        invariant
            i <= n,
            n == v@.len(),
            w >= 1,
            chunks(s@, w as nat) == out@.map_values(|x: String| x@) + chunks(v@.skip(i as int), w as nat),
            v@ == s@,
        decreases n - i,
    {
        let ghost before = out@.map_values(|x: String| x@);
        let piece = string_of_range(&v, i, i + w);
        let ghost rest = v@.skip(i as int);
        assert(rest.take(w as int) =~= v@.subrange(i as int, i + w));
        assert(rest.skip(w as int) =~= v@.skip(i + w));
        out.push(piece);
        assert(out@.map_values(|x: String| x@) =~= before.push(v@.subrange(i as int, i + w)));
        assert(chunks(s@, w as nat) =~= out@.map_values(|x: String| x@) + chunks(v@.skip(i + w), w as nat));
        i = i + w;
    }
    let ghost before = out@.map_values(|x: String| x@);
    let last = string_of_range(&v, i, n);
    assert(v@.subrange(i as int, n as int) =~= v@.skip(i as int));
    out.push(last);
    assert(out@.map_values(|x: String| x@) =~= before + seq![v@.skip(i as int)]);
    out
}

/// Greedy word wrap: the finished lines and the line being filled, after
/// the words `ws`. A word joins the line when the line's bytes, a space and
/// the word's bytes fit in `width`.
pub open spec fn wrap_state(ws: Seq<Seq<char>>, width: nat) -> (Seq<Seq<char>>, Seq<char>)
    decreases ws.len(),
{
    if ws.len() == 0 {
        (Seq::empty(), Seq::empty())
    } else {
        let (lines, cur) = wrap_state(ws.drop_last(), width);
        let w = ws.last();
        if cur.len() == 0 {
            (lines, w)
        } else if utf8_len(cur) + 1 + utf8_len(w) <= width {
            (lines, cur + seq![' '] + w)
        } else {
            (lines.push(cur), w)
        }
    }
}

pub open spec fn wrapped(s: Seq<char>, width: nat) -> Seq<Seq<char>> {
    let (lines, cur) = wrap_state(words(s), width);
    if cur.len() > 0 { lines.push(cur) } else { lines }
}

pub fn wrap_words(s: &str, width: usize) -> (r: Vec<String>)
    ensures
        r@.map_values(|x: String| x@) == wrapped(s@, width as nat),
{
    let v = chars_of(s);
    let n = v.len();
    let mut lines: Vec<String> = Vec::new();
    let mut cur = String::new();
    let mut pos: usize = 0;
    let ghost mut done: Seq<Seq<char>> = seq![];
    assert(v@.skip(0) =~= v@);
    assert(words(v@) =~= done + words(v@.skip(0)));
    while pos < n
        invariant
            pos <= n,
            n == v@.len(),
            v@ == s@,
            words(v@) == done + words(v@.skip(pos as int)),
            (lines@.map_values(|x: String| x@), cur@) == wrap_state(done, width as nat),
        decreases n - pos,
    {
        let (w, next) = next_word(&v, pos);
        match w {
            None => {
                assert(words(v@) =~= done + words(v@.skip(next as int)));
                pos = n;
                proof {
                    assert(words(v@.skip(pos as int)) =~= Seq::<Seq<char>>::empty()) by {
                        assert(v@.skip(n as int) =~= Seq::<char>::empty());
                    }
                }
            }
            Some(wv) => {
                let ghost st = wrap_state(done, width as nat);
                let word = string_of(&wv);
                let ghost before = lines@.map_values(|x: String| x@);
                if cur.as_str().is_empty() {
                    cur = word;
                } else if (byte_len(cur.as_str()) as u128) + 1 + (byte_len(word.as_str()) as u128) <= width as u128 {
                    push_char(&mut cur, ' ');
                    push_str(&mut cur, word.as_str());
                } else {
                    let ghost c = cur@;
                    let full = cur;
                    lines.push(full);
                    assert(lines@.map_values(|x: String| x@) =~= before.push(c));
                    cur = word;
                }
                proof {
                    let d2 = done.push(wv@);
                    assert(d2.drop_last() =~= done);
                    assert(words(v@) =~= d2 + words(v@.skip(next as int)));
                    done = d2;
                }
                pos = next;
            }
        }
    }
    assert(words(v@.skip(pos as int)) =~= Seq::<Seq<char>>::empty()) by {
        assert(v@.skip(pos as int) =~= Seq::<char>::empty());
        assert(crate::text::trim_start(Seq::<char>::empty()) =~= Seq::<char>::empty());
    }
    assert(words(v@) =~= done);
    if !cur.as_str().is_empty() {
        let ghost before = lines@.map_values(|x: String| x@);
        let ghost c = cur@;
        lines.push(cur);
        assert(lines@.map_values(|x: String| x@) =~= before.push(c));
    }
    lines
}

} // verus!
