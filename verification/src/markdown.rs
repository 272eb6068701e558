//! The small markdown dialect of the chat transcript: code fences,
//! `` `inline code` ``, `**bold**`, `#` headings and `-`/`*` bullets,
//! hard-wrapped to a column width so that scrolling can count lines.
//!
//! Colours are the screen's business; here a run of text carries only the
//! two facts that decide its colour: whether it is bold and whether it is
//! code.

use vstd::prelude::*;
use crate::text::{chars_of, has_at, has_prefix, push_char, skip_ws, skip_ws_back, slice_vec, starts_with, string_of_range, trim_end, trim_start, occurs_at};
use crate::hardware::{split_exec, split_on};
use crate::render::{chunks, hard_wrap, wrap_words, wrapped};

verus! {

/// How a run of text is drawn.
#[derive(Clone, Copy, Debug, PartialEq, Eq, Structural)]
pub struct Look {
    pub bold: bool,
    pub code: bool,
}

/// A run: its text and its look.
pub open spec fn run_v(p: (String, Look)) -> (Seq<char>, Look) {
    (p.0@, p.1)
}

pub open spec fn runs_v(v: Seq<(String, Look)>) -> Seq<(Seq<char>, Look)> {
    v.map_values(|p: (String, Look)| run_v(p))
}

/// Ends the pending run: an empty buffer makes no run.
pub open spec fn flush(acc: Seq<(Seq<char>, Look)>, buf: Seq<char>, bold: bool, code: bool) -> Seq<(Seq<char>, Look)> {
    if buf.len() == 0 {
        acc
    } else {
        acc.push((buf, Look { bold, code }))
    }
}

/// Scans `s` with `buf` pending, after the runs `acc`. Outside code, `**`
/// toggles bold; a backtick toggles code; both end the pending run.
pub open spec fn runs_from(
    s: Seq<char>,
    buf: Seq<char>,
    bold: bool,
    code: bool,
    acc: Seq<(Seq<char>, Look)>,
) -> Seq<(Seq<char>, Look)>
    decreases s.len(),
{
    if s.len() == 0 {
        flush(acc, buf, bold, code)
    } else if !code && s[0] == '*' && s.len() > 1 && s[1] == '*' {
        runs_from(s.skip(2), Seq::empty(), !bold, code, flush(acc, buf, bold, code))
    } else if s[0] == '`' {
        runs_from(s.skip(1), Seq::empty(), bold, !code, flush(acc, buf, bold, code))
    } else {
        runs_from(s.skip(1), buf.push(s[0]), bold, code, acc)
    }
}

/// The styled runs of one line of text.
pub open spec fn runs(s: Seq<char>) -> Seq<(Seq<char>, Look)> {
    runs_from(s, Seq::empty(), false, false, Seq::empty())
}

/// `s` without its markers: what the runs hold, put back together.
pub open spec fn plain_from(s: Seq<char>, code: bool) -> Seq<char>
    decreases s.len(),
{
    if s.len() == 0 {
        Seq::empty()
    } else if !code && s[0] == '*' && s.len() > 1 && s[1] == '*' {
        plain_from(s.skip(2), code)
    } else if s[0] == '`' {
        plain_from(s.skip(1), !code)
    } else {
        seq![s[0]] + plain_from(s.skip(1), code)
    }
}

/// The texts of `rs`, one after the other.
pub open spec fn texts(rs: Seq<(Seq<char>, Look)>) -> Seq<char>
    decreases rs.len(),
{
    if rs.len() == 0 {
        Seq::empty()
    } else {
        texts(rs.drop_last()) + rs.last().0
    }
}

fn end_run(out: &mut Vec<(String, Look)>, buf: String, bold: bool, code: bool)
    ensures
        runs_v(final(out)@) == flush(runs_v(old(out)@), buf@, bold, code),
{
    if buf.as_str().is_empty() {
        assert(buf@.len() == 0);
    } else {
        let ghost before = runs_v(out@);
        let ghost b = buf@;
        out.push((buf, Look { bold, code }));
        assert(runs_v(out@) =~= before.push((b, Look { bold, code })));
    }
}

/// Splits a line into runs, toggling bold on `**` (outside code) and code
/// on a backtick. A run is never empty.
pub fn inline_tokens(text: &str) -> (r: Vec<(String, Look)>)
    ensures
        runs_v(r@) == runs(text@),
{
    let v = chars_of(text);
    let n = v.len();
    let mut out: Vec<(String, Look)> = Vec::new();
    let mut buf = String::new();
    let mut bold = false;
    let mut code = false;
    let mut i: usize = 0;
    assert(v@.skip(0) =~= v@);
    assert(runs_v(out@) =~= Seq::<(Seq<char>, Look)>::empty());
    while i < n
        invariant
            i <= n,
            n == v@.len(),
            v@ == text@,
            runs(text@) == runs_from(v@.skip(i as int), buf@, bold, code, runs_v(out@)),
        decreases n - i,
    {
        let ghost rest = v@.skip(i as int);
        if !code && v[i] == '*' && i + 1 < n && v[i + 1] == '*' {
            let full = buf;
            buf = String::new();
            end_run(&mut out, full, bold, code);
            bold = !bold;
            assert(rest.skip(2) =~= v@.skip(i + 2));
            i = i + 2;
        } else if v[i] == '`' {
            let full = buf;
            buf = String::new();
            end_run(&mut out, full, bold, code);
            code = !code;
            assert(rest.skip(1) =~= v@.skip(i + 1));
            i = i + 1;
        } else {
            push_char(&mut buf, v[i]);
            assert(rest.skip(1) =~= v@.skip(i + 1));
            i = i + 1;
        }
    }
    assert(v@.skip(n as int) =~= Seq::<char>::empty());
    end_run(&mut out, buf, bold, code);
    out
}

proof fn lemma_runs_from_nonempty(
    s: Seq<char>,
    buf: Seq<char>,
    bold: bool,
    code: bool,
    acc: Seq<(Seq<char>, Look)>,
)
    requires
        forall|i: int| 0 <= i < acc.len() ==> #[trigger] acc[i].0.len() > 0,
    ensures
        forall|i: int| 0 <= i < runs_from(s, buf, bold, code, acc).len()
            ==> #[trigger] runs_from(s, buf, bold, code, acc)[i].0.len() > 0,
    decreases s.len(),
{
    let f = flush(acc, buf, bold, code);
    assert forall|i: int| 0 <= i < f.len() implies #[trigger] f[i].0.len() > 0 by {
        if i < acc.len() {
            assert(f[i] == acc[i]);
        }
    }
    let r = runs_from(s, buf, bold, code, acc);
    if s.len() == 0 {
        assert(r == f);
    } else if !code && s[0] == '*' && s.len() > 1 && s[1] == '*' {
        lemma_runs_from_nonempty(s.skip(2), Seq::empty(), !bold, code, f);
        assert(r == runs_from(s.skip(2), Seq::empty(), !bold, code, f));
    } else if s[0] == '`' {
        lemma_runs_from_nonempty(s.skip(1), Seq::empty(), bold, !code, f);
        assert(r == runs_from(s.skip(1), Seq::empty(), bold, !code, f));
    } else {
        lemma_runs_from_nonempty(s.skip(1), buf.push(s[0]), bold, code, acc);
        assert(r == runs_from(s.skip(1), buf.push(s[0]), bold, code, acc));
    }
}

proof fn lemma_runs_from_texts(
    s: Seq<char>,
    buf: Seq<char>,
    bold: bool,
    code: bool,
    acc: Seq<(Seq<char>, Look)>,
)
    ensures
        texts(runs_from(s, buf, bold, code, acc)) == texts(acc) + buf + plain_from(s, code),
    decreases s.len(),
{
    let f = flush(acc, buf, bold, code);
    assert(texts(f) == texts(acc) + buf) by {
        if buf.len() == 0 {
            assert(texts(acc) + buf =~= texts(acc));
        } else {
            assert(f.drop_last() =~= acc);
        }
    }
    if s.len() == 0 {
        assert(texts(acc) + buf + plain_from(s, code) =~= texts(acc) + buf);
    } else if !code && s[0] == '*' && s.len() > 1 && s[1] == '*' {
        lemma_runs_from_texts(s.skip(2), Seq::empty(), !bold, code, f);
        assert(texts(f) + Seq::<char>::empty() =~= texts(f));
    } else if s[0] == '`' {
        lemma_runs_from_texts(s.skip(1), Seq::empty(), bold, !code, f);
        assert(texts(f) + Seq::<char>::empty() =~= texts(f));
    } else {
        lemma_runs_from_texts(s.skip(1), buf.push(s[0]), bold, code, acc);
        assert(texts(acc) + buf.push(s[0]) + plain_from(s.skip(1), code)
            =~= texts(acc) + buf + (seq![s[0]] + plain_from(s.skip(1), code)));
    }
}

/// Splitting a line into runs never makes an empty run, and loses or adds
/// no text: the runs put back together are the line without its `**` and
/// backtick markers.
pub proof fn lemma_runs_keep_text(s: Seq<char>)
    ensures
        forall|i: int| 0 <= i < runs(s).len() ==> #[trigger] runs(s)[i].0.len() > 0,
        texts(runs(s)) == plain_from(s, false),
{
    lemma_runs_from_nonempty(s, Seq::empty(), false, false, Seq::empty());
    lemma_runs_from_texts(s, Seq::empty(), false, false, Seq::empty());
    assert(texts(Seq::<(Seq<char>, Look)>::empty()) + Seq::<char>::empty() + plain_from(s, false)
        =~= plain_from(s, false));
}

/// One piece of a wrapped line: a single space between words, or a word
/// (or a slice of a word too long for a line) with its look.
#[derive(Debug, PartialEq, Eq)]
pub enum Piece {
    Gap,
    Run(String, Look),
}

pub enum PieceV {
    Gap,
    Run(Seq<char>, Look),
}

impl View for Piece {
    type V = PieceV;

    open spec fn view(&self) -> PieceV {
        match self {
            Piece::Gap => PieceV::Gap,
            Piece::Run(t, l) => PieceV::Run(t@, *l),
        }
    }
}

pub open spec fn line_v(l: Vec<Piece>) -> Seq<PieceV> {
    l@.map_values(|p: Piece| p@)
}

pub open spec fn lines_v(ls: Seq<Vec<Piece>>) -> Seq<Seq<PieceV>> {
    ls.map_values(|l: Vec<Piece>| line_v(l))
}

/// Columns a piece takes.
pub open spec fn piece_width(p: PieceV) -> nat {
    match p {
        PieceV::Gap => 1,
        PieceV::Run(t, _) => t.len(),
    }
}

/// Columns a line takes.
pub open spec fn line_width(l: Seq<PieceV>) -> nat
    decreases l.len(),
{
    if l.len() == 0 {
        0
    } else {
        line_width(l.drop_last()) + piece_width(l.last())
    }
}

/// Wrapping state: the finished lines, the line being filled and its width.
pub type WrapState = (Seq<Seq<PieceV>>, Seq<PieceV>, nat);

/// Places one piece: a new line when it does not fit after a space,
/// then a space when the line is not empty, then the piece.
pub open spec fn place(st: WrapState, piece: Seq<char>, look: Look, width: nat) -> WrapState {
    let need = piece.len();
    let broke = st.2 > 0 && st.2 + 1 + need > width;
    let done = if broke { st.0.push(st.1) } else { st.0 };
    let cur0 = if broke { Seq::<PieceV>::empty() } else { st.1 };
    let w0: nat = if broke { 0 } else { st.2 };
    let cur1 = if w0 > 0 { cur0.push(PieceV::Gap) } else { cur0 };
    let w1: nat = if w0 > 0 { w0 + 1 } else { w0 };
    (done, cur1.push(PieceV::Run(piece, look)), w1 + need)
}

pub open spec fn place_all(st: WrapState, pieces: Seq<Seq<char>>, look: Look, width: nat) -> WrapState
    decreases pieces.len(),
{
    if pieces.len() == 0 {
        st
    } else {
        place_all(place(st, pieces[0], look, width), pieces.drop_first(), look, width)
    }
}

/// The words of a run are its text split at single spaces, empty ones
/// skipped; a word wider than the line is cut into line-wide slices.
pub open spec fn place_words(st: WrapState, ws: Seq<Seq<char>>, look: Look, width: nat) -> WrapState
    decreases ws.len(),
{
    if ws.len() == 0 {
        st
    } else {
        let next = if ws[0].len() == 0 { st } else { place_all(st, chunks(ws[0], width), look, width) };
        place_words(next, ws.drop_first(), look, width)
    }
}

pub open spec fn place_runs(st: WrapState, rs: Seq<(Seq<char>, Look)>, width: nat) -> WrapState
    decreases rs.len(),
{
    if rs.len() == 0 {
        st
    } else {
        place_runs(place_words(st, split_on(rs[0].0, ' '), rs[0].1, width), rs.drop_first(), width)
    }
}

/// The runs `rs` word-wrapped to `width` columns (at least four).
pub open spec fn wrap_runs(rs: Seq<(Seq<char>, Look)>, width: nat) -> Seq<Seq<PieceV>> {
    let w: nat = if width < 4 { 4 } else { width };
    let st = place_runs((Seq::empty(), Seq::empty(), 0), rs, w);
    st.0.push(st.1)
}

struct Wrapper {
    done: Vec<Vec<Piece>>,
    cur: Vec<Piece>,
    w: usize,
}

impl Wrapper {
    spec fn state(&self) -> WrapState {
        (lines_v(self.done@), line_v(self.cur), self.w as nat)
    }

    fn place(&mut self, piece: String, look: Look, width: usize)
        requires
            old(self).w <= width,
            piece@.len() <= width,
        ensures
            final(self).state() == place(old(self).state(), piece@, look, width as nat),
            final(self).w <= width,
    {
        let need = chars_of(piece.as_str()).len();
        let ghost before = self.state();
        if self.w > 0 && (self.w as u128) + 1 + (need as u128) > width as u128 {
            let mut full: Vec<Piece> = Vec::new();
            std::mem::swap(&mut full, &mut self.cur);
            let ghost d = lines_v(self.done@);
            self.done.push(full);
            assert(lines_v(self.done@) =~= d.push(before.1));
            assert(line_v(self.cur) =~= Seq::<PieceV>::empty());
            self.w = 0;
        }
        if self.w > 0 {
            let ghost c = line_v(self.cur);
            self.cur.push(Piece::Gap);
            assert(line_v(self.cur) =~= c.push(PieceV::Gap));
            self.w = self.w + 1;
        }
        let ghost c = line_v(self.cur);
        let ghost t = piece@;
        self.cur.push(Piece::Run(piece, look));
        assert(line_v(self.cur) =~= c.push(PieceV::Run(t, look)));
        self.w = self.w + need;
    }
}

/// Word-wraps styled runs to `width` columns (at least four), keeping each
/// word's look; words are separated by `Piece::Gap`.
pub fn wrap_spans(tokens: Vec<(String, Look)>, width: usize) -> (r: Vec<Vec<Piece>>)
    ensures
        lines_v(r@) == wrap_runs(runs_v(tokens@), width as nat),
{
    let width = if width < 4 { 4 } else { width };
    let ghost rs = runs_v(tokens@);
    let mut st = Wrapper { done: Vec::new(), cur: Vec::new(), w: 0 };
    assert(lines_v(st.done@) =~= Seq::<Seq<PieceV>>::empty());
    assert(line_v(st.cur) =~= Seq::<PieceV>::empty());
    assert(rs.skip(0) =~= rs);
    let mut t: usize = 0;
    while t < tokens.len()
        invariant
            t <= tokens@.len(),
            rs == runs_v(tokens@),
            width >= 4,
            st.w <= width,
            place_runs((Seq::empty(), Seq::empty(), 0), rs, width as nat)
                == place_runs(st.state(), rs.skip(t as int), width as nat),
        decreases tokens@.len() - t,
    {
        let look = tokens[t].1;
        let v = chars_of(tokens[t].0.as_str());
        let ws = split_exec(&v, ' ');
        let ghost wsv = ws@.map_values(|x: String| x@);
        let ghost st0 = st.state();
        assert(rs.skip(t as int)[0] == rs[t as int]);
        assert(rs.skip(t as int).drop_first() =~= rs.skip(t + 1));
        assert(wsv.skip(0) =~= wsv);
        let mut k: usize = 0;
        while k < ws.len()
            invariant
                k <= ws@.len(),
                wsv == ws@.map_values(|x: String| x@),
                width >= 4,
                st.w <= width,
                place_words(st0, wsv, look, width as nat) == place_words(st.state(), wsv.skip(k as int), look, width as nat),
            decreases ws@.len() - k,
        {
            let ghost stk = st.state();
            assert(wsv.skip(k as int)[0] == wsv[k as int]);
            assert(wsv.skip(k as int).drop_first() =~= wsv.skip(k + 1));
            if !ws[k].as_str().is_empty() {
                let pieces = hard_wrap(ws[k].as_str(), width);
                let ghost pv = pieces@.map_values(|x: String| x@);
                proof {
                    lemma_chunks_fit(wsv[k as int], width as nat);
                }
                assert(pv.skip(0) =~= pv);
                let mut j: usize = 0;
                while j < pieces.len()
                    invariant
                        j <= pieces@.len(),
                        pv == pieces@.map_values(|x: String| x@),
                        pv == chunks(wsv[k as int], width as nat),
                        forall|i: int| 0 <= i < pv.len() ==> #[trigger] pv[i].len() <= width,
                        st.w <= width,
                        place_all(stk, pv, look, width as nat) == place_all(st.state(), pv.skip(j as int), look, width as nat),
                    decreases pieces@.len() - j,
                {
                    assert(pv.skip(j as int)[0] == pv[j as int]);
                    assert(pv.skip(j as int).drop_first() =~= pv.skip(j + 1));
                    let piece = pieces[j].clone();
                    assert(piece@ == pv[j as int]);
                    st.place(piece, look, width);
                    j = j + 1;
                }
                assert(pv.skip(j as int) =~= Seq::<Seq<char>>::empty());
            } else {
                assert(wsv[k as int].len() == 0);
            }
            k = k + 1;
        }
        assert(wsv.skip(k as int) =~= Seq::<Seq<char>>::empty());
        t = t + 1;
    }
    assert(rs.skip(t as int) =~= Seq::<(Seq<char>, Look)>::empty());
    let ghost fin = st.state();
    let Wrapper { done, cur, w: _ } = st;
    let mut done = done;
    done.push(cur);
    assert(lines_v(done@) =~= fin.0.push(fin.1));
    done
}

/// Every slice `chunks` cuts is at most `w` wide.
pub proof fn lemma_chunks_fit(s: Seq<char>, w: nat)
    requires
        w > 0,
    ensures
        forall|i: int| 0 <= i < chunks(s, w).len() ==> #[trigger] chunks(s, w)[i].len() <= w,
    decreases s.len(),
{
    if s.len() > w {
        lemma_chunks_fit(s.skip(w as int), w);
        let c = chunks(s, w);
        assert forall|i: int| 0 <= i < c.len() implies #[trigger] c[i].len() <= w by {
            if i > 0 {
                assert(c[i] == chunks(s.skip(w as int), w)[i - 1]);
            }
        }
    }
}

pub open spec fn fits(st: WrapState, width: nat) -> bool {
    &&& st.2 == line_width(st.1)
    &&& st.2 <= width
    &&& forall|i: int| 0 <= i < st.0.len() ==> #[trigger] line_width(st.0[i]) <= width
}

proof fn lemma_place_fits(st: WrapState, piece: Seq<char>, look: Look, width: nat)
    requires
        fits(st, width),
        piece.len() <= width,
    ensures
        fits(place(st, piece, look, width), width),
{
    let need = piece.len();
    let broke = st.2 > 0 && st.2 + 1 + need > width;
    let done = if broke { st.0.push(st.1) } else { st.0 };
    let cur0 = if broke { Seq::<PieceV>::empty() } else { st.1 };
    let w0: nat = if broke { 0 } else { st.2 };
    let cur1 = if w0 > 0 { cur0.push(PieceV::Gap) } else { cur0 };
    let w1: nat = if w0 > 0 { w0 + 1 } else { w0 };
    assert(line_width(cur0) == w0);
    if w0 > 0 {
        assert(cur1.drop_last() =~= cur0);
    }
    assert(line_width(cur1) == w1);
    let cur2 = cur1.push(PieceV::Run(piece, look));
    assert(cur2.drop_last() =~= cur1);
    assert(line_width(cur2) == w1 + need);
    assert(w1 + need <= width);
    assert forall|i: int| 0 <= i < done.len() implies #[trigger] line_width(done[i]) <= width by {
        if i < st.0.len() {
            assert(done[i] == st.0[i]);
        } else {
            assert(done[i] == st.1);
        }
    }
}

proof fn lemma_place_all_fits(st: WrapState, pieces: Seq<Seq<char>>, look: Look, width: nat)
    requires
        fits(st, width),
        forall|i: int| 0 <= i < pieces.len() ==> #[trigger] pieces[i].len() <= width,
    ensures
        fits(place_all(st, pieces, look, width), width),
    decreases pieces.len(),
{
    if pieces.len() > 0 {
        lemma_place_fits(st, pieces[0], look, width);
        assert forall|i: int| 0 <= i < pieces.drop_first().len() implies #[trigger] pieces.drop_first()[i].len() <= width by {
            assert(pieces.drop_first()[i] == pieces[i + 1]);
        }
        lemma_place_all_fits(place(st, pieces[0], look, width), pieces.drop_first(), look, width);
    }
}

proof fn lemma_place_words_fits(st: WrapState, ws: Seq<Seq<char>>, look: Look, width: nat)
    requires
        fits(st, width),
        width > 0,
    ensures
        fits(place_words(st, ws, look, width), width),
    decreases ws.len(),
{
    if ws.len() > 0 {
        if ws[0].len() > 0 {
            lemma_chunks_fit(ws[0], width);
            lemma_place_all_fits(st, chunks(ws[0], width), look, width);
        }
        let next = if ws[0].len() == 0 { st } else { place_all(st, chunks(ws[0], width), look, width) };
        lemma_place_words_fits(next, ws.drop_first(), look, width);
    }
}

proof fn lemma_place_runs_fits(st: WrapState, rs: Seq<(Seq<char>, Look)>, width: nat)
    requires
        fits(st, width),
        width > 0,
    ensures
        fits(place_runs(st, rs, width), width),
    decreases rs.len(),
{
    if rs.len() > 0 {
        lemma_place_words_fits(st, split_on(rs[0].0, ' '), rs[0].1, width);
        lemma_place_runs_fits(place_words(st, split_on(rs[0].0, ' '), rs[0].1, width), rs.drop_first(), width);
    }
}

/// No wrapped line is wider than the width it was wrapped to (a space
/// between words counts one column).
pub proof fn lemma_wrapped_lines_fit(rs: Seq<(Seq<char>, Look)>, width: nat)
    ensures
        forall|i: int| 0 <= i < wrap_runs(rs, width).len()
            ==> #[trigger] line_width(wrap_runs(rs, width)[i]) <= (if width < 4 { 4 } else { width }),
{
    let w: nat = if width < 4 { 4 } else { width };
    let st0: WrapState = (Seq::empty(), Seq::empty(), 0);
    assert(line_width(Seq::<PieceV>::empty()) == 0);
    lemma_place_runs_fits(st0, rs, w);
    let st = place_runs(st0, rs, w);
    let r = wrap_runs(rs, width);
    assert forall|i: int| 0 <= i < r.len() implies #[trigger] line_width(r[i]) <= w by {
        if i < st.0.len() {
            assert(r[i] == st.0[i]);
        } else {
            assert(r[i] == st.1);
        }
    }
}

/// What starts a line of text that is not a heading.
#[derive(Clone, Copy, Debug, PartialEq, Eq, Structural)]
pub enum Lead {
    /// Nothing: an ordinary paragraph line.
    Plain,
    /// The first line of a bullet item (drawn as `• `).
    Bullet,
    /// A later line of a bullet item (two spaces).
    Indent,
}

/// One screen line of rendered markdown.
#[derive(Debug, PartialEq, Eq)]
pub enum MdLine {
    Blank,
    /// A slice of a line inside a code fence.
    Code(String),
    Heading(String),
    Text(Lead, Vec<Piece>),
}

pub enum MdLineV {
    Blank,
    Code(Seq<char>),
    Heading(Seq<char>),
    Text(Lead, Seq<PieceV>),
}

impl View for MdLine {
    type V = MdLineV;

    open spec fn view(&self) -> MdLineV {
        match self {
            MdLine::Blank => MdLineV::Blank,
            MdLine::Code(c) => MdLineV::Code(c@),
            MdLine::Heading(h) => MdLineV::Heading(h@),
            MdLine::Text(l, ps) => MdLineV::Text(*l, line_v(*ps)),
        }
    }
}

pub open spec fn md_v(v: Seq<MdLine>) -> Seq<MdLineV> {
    v.map_values(|l: MdLine| l@)
}

/// A line that opens or closes a code fence.
pub open spec fn is_fence(raw: Seq<char>) -> bool {
    starts_with(trim_start(raw), seq!['`', '`', '`'])
}

/// The text of a `#`, `##` or `###` heading.
pub open spec fn heading_body(t: Seq<char>) -> Option<Seq<char>> {
    if starts_with(t, seq!['#', '#', '#', ' ']) {
        Some(t.skip(4))
    } else if starts_with(t, seq!['#', '#', ' ']) {
        Some(t.skip(3))
    } else if starts_with(t, seq!['#', ' ']) {
        Some(t.skip(2))
    } else {
        None
    }
}

/// The text of a `- ` or `* ` bullet item.
pub open spec fn bullet_body(t: Seq<char>) -> Option<Seq<char>> {
    if starts_with(t, seq!['-', ' ']) || starts_with(t, seq!['*', ' ']) {
        Some(t.skip(2))
    } else {
        None
    }
}

pub open spec fn text_lines(ls: Seq<Seq<PieceV>>, bullet: bool) -> Seq<MdLineV> {
    Seq::new(ls.len(), |i: int| MdLineV::Text(
        if !bullet { Lead::Plain } else if i == 0 { Lead::Bullet } else { Lead::Indent },
        ls[i],
    ))
}

/// The screen lines of one line `t` of prose (already trimmed at the end).
pub open spec fn prose(t: Seq<char>, width: nat) -> Seq<MdLineV> {
    match heading_body(t) {
        Some(h) => wrapped(h, width).map_values(|l: Seq<char>| MdLineV::Heading(l)),
        None => {
            let bullet = bullet_body(t) is Some;
            let body = match bullet_body(t) { Some(b) => b, None => t };
            if body.len() == 0 {
                seq![MdLineV::Blank]
            } else {
                text_lines(wrap_runs(runs(body), if bullet { (width - 2) as nat } else { width }), bullet)
            }
        }
    }
}

/// One source line: its screen lines and whether a code fence is open after it.
pub open spec fn md_step(raw: Seq<char>, in_code: bool, width: nat) -> (Seq<MdLineV>, bool) {
    if is_fence(raw) {
        (Seq::empty(), !in_code)
    } else if in_code {
        (chunks(raw, (width - 2) as nat).map_values(|c: Seq<char>| MdLineV::Code(c)), in_code)
    } else {
        (prose(trim_end(raw), width), in_code)
    }
}

pub open spec fn md_from(lines: Seq<Seq<char>>, in_code: bool, width: nat, acc: Seq<MdLineV>) -> Seq<MdLineV>
    decreases lines.len(),
{
    if lines.len() == 0 {
        acc
    } else {
        let (ls, c) = md_step(lines[0], in_code, width);
        md_from(lines.drop_first(), c, width, acc + ls)
    }
}

/// `text` rendered to screen lines of `width` columns (at least eight).
pub open spec fn markdown(text: Seq<char>, width: nat) -> Seq<MdLineV> {
    md_from(split_on(text, '\n'), false, if width < 8 { 8 } else { width }, Seq::empty())
}

fn push_codes(out: &mut Vec<MdLine>, cs: &Vec<String>)
    ensures
        md_v(final(out)@) == md_v(old(out)@) + cs@.map_values(|x: String| x@).map_values(|c: Seq<char>| MdLineV::Code(c)),
{
    let ghost start = md_v(out@);
    let ghost cv = cs@.map_values(|x: String| x@).map_values(|c: Seq<char>| MdLineV::Code(c));
    let mut i: usize = 0;
    while i < cs.len()
        invariant
            i <= cs@.len(),
            cv == cs@.map_values(|x: String| x@).map_values(|c: Seq<char>| MdLineV::Code(c)),
            md_v(out@) == start + cv.take(i as int),
        decreases cs@.len() - i,
    {
        let ghost before = md_v(out@);
        out.push(MdLine::Code(cs[i].clone()));
        assert(md_v(out@) =~= before.push(cv[i as int]));
        assert(cv.take(i + 1) =~= cv.take(i as int).push(cv[i as int]));
        i = i + 1;
    }
    assert(cv.take(i as int) =~= cv);
}

fn push_headings(out: &mut Vec<MdLine>, hs: &Vec<String>)
    ensures
        md_v(final(out)@) == md_v(old(out)@) + hs@.map_values(|x: String| x@).map_values(|l: Seq<char>| MdLineV::Heading(l)),
{
    let ghost start = md_v(out@);
    let ghost hv = hs@.map_values(|x: String| x@).map_values(|l: Seq<char>| MdLineV::Heading(l));
    let mut i: usize = 0;
    while i < hs.len()
        invariant
            i <= hs@.len(),
            hv == hs@.map_values(|x: String| x@).map_values(|l: Seq<char>| MdLineV::Heading(l)),
            md_v(out@) == start + hv.take(i as int),
        decreases hs@.len() - i,
    {
        let ghost before = md_v(out@);
        out.push(MdLine::Heading(hs[i].clone()));
        assert(md_v(out@) =~= before.push(hv[i as int]));
        assert(hv.take(i + 1) =~= hv.take(i as int).push(hv[i as int]));
        i = i + 1;
    }
    assert(hv.take(i as int) =~= hv);
}

fn push_text(out: &mut Vec<MdLine>, ls: Vec<Vec<Piece>>, bullet: bool)
    ensures
        md_v(final(out)@) == md_v(old(out)@) + text_lines(lines_v(ls@), bullet),
{
    let ghost start = md_v(out@);
    let ghost all = text_lines(lines_v(ls@), bullet);
    let ghost lv = lines_v(ls@);
    let total = ls.len();
    let mut rest = ls;
    let mut i: usize = 0;
    assert(lv.skip(0) =~= lv);
    while rest.len() > 0
        invariant
            i <= lv.len(),
            lv.len() == total,
            lines_v(rest@) == lv.skip(i as int),
            all == text_lines(lv, bullet),
            md_v(out@) == start + all.take(i as int),
        decreases rest@.len(),
    {
        let ghost before = md_v(out@);
        let ghost r0 = lines_v(rest@);
        assert(r0.len() == rest@.len());
        assert(r0[0] == lv.skip(i as int)[0]);
        assert(lv.skip(i as int).len() == lv.len() - i);
        let ghost old_rest = rest@;
        let l = rest.remove(0);
        assert(l == old_rest[0]);
        assert(r0[0] == line_v(old_rest[0]));
        assert(lines_v(rest@) =~= r0.drop_first());
        assert(line_v(l) == lv[i as int]);
        let lead = if !bullet { Lead::Plain } else if i == 0 { Lead::Bullet } else { Lead::Indent };
        out.push(MdLine::Text(lead, l));
        assert(md_v(out@) =~= before.push(all[i as int]));
        assert(all.take(i + 1) =~= all.take(i as int).push(all[i as int]));
        assert(lv.skip(i as int).drop_first() =~= lv.skip(i + 1));
        i = i + 1;
    }
    assert(all.take(i as int) =~= all);
}

/// Does `v[lo..]` begin with the characters of `p`?
fn opens_with(v: &Vec<char>, lo: usize, p: &str) -> (r: bool)
    requires
        lo <= v@.len(),
    ensures
        r == starts_with(v@.skip(lo as int), p@),
{
    let r = has_at(v, p, lo);
    proof {
        let s = v@.skip(lo as int);
        if r {
            assert(s.subrange(0, p@.len() as int) =~= v@.subrange(lo as int, lo + p@.len()));
        }
        if starts_with(s, p@) {
            assert(s.subrange(0, p@.len() as int) =~= v@.subrange(lo as int, lo + p@.len()));
        }
    }
    r
}

/// Renders one source line into `out`; returns whether a code fence is
/// open after it.
fn md_line(out: &mut Vec<MdLine>, raw: &str, in_code: bool, width: usize) -> (r: bool)
    requires
        width >= 8,
    ensures
        md_v(final(out)@) == md_v(old(out)@) + md_step(raw@, in_code, width as nat).0,
        r == md_step(raw@, in_code, width as nat).1,
{
    let v = chars_of(raw);
    let n = v.len();
    let a = skip_ws(&v, 0, n);
    assert(v@.subrange(0, n as int) =~= v@);
    assert(v@.subrange(a as int, n as int) =~= v@.skip(a as int));
    let fence = opens_with(&v, a, "```");
    proof {
        reveal_strlit("```");
        assert("```"@ =~= seq!['`', '`', '`']);
    }
    if fence {
        assert(md_v(out@) + Seq::<MdLineV>::empty() =~= md_v(out@));
        return !in_code;
    }
    if in_code {
        let cs = hard_wrap(raw, width - 2);
        push_codes(out, &cs);
        return in_code;
    }
    let b = skip_ws_back(&v, 0, n);
    let t = slice_vec(&v, 0, b);
    let tn = t.len();
    assert(t@ == trim_end(raw@));
    assert(t@.skip(0) =~= t@);
    proof {
        reveal_strlit("### ");
        reveal_strlit("## ");
        reveal_strlit("# ");
        reveal_strlit("- ");
        reveal_strlit("* ");
        assert("### "@ =~= seq!['#', '#', '#', ' ']);
        assert("## "@ =~= seq!['#', '#', ' ']);
        assert("# "@ =~= seq!['#', ' ']);
        assert("- "@ =~= seq!['-', ' ']);
        assert("* "@ =~= seq!['*', ' ']);
    }
    let h = if opens_with(&t, 0, "### ") {
        4
    } else if opens_with(&t, 0, "## ") {
        3
    } else if opens_with(&t, 0, "# ") {
        2
    } else {
        0
    };
    if h > 0 {
        let body = string_of_range(&t, h, tn);
        assert(t@.subrange(h as int, tn as int) =~= t@.skip(h as int));
        let ls = wrap_words(body.as_str(), width);
        push_headings(out, &ls);
        return in_code;
    }
    let bullet = opens_with(&t, 0, "- ") || opens_with(&t, 0, "* ");
    let from: usize = if bullet { 2 } else { 0 };
    let body = string_of_range(&t, from, tn);
    assert(t@.subrange(from as int, tn as int) =~= t@.skip(from as int));
    if body.as_str().is_empty() {
        let ghost before = md_v(out@);
        out.push(MdLine::Blank);
        assert(md_v(out@) =~= before + seq![MdLineV::Blank]);
        return in_code;
    }
    let tokens = inline_tokens(body.as_str());
    let lines = wrap_spans(tokens, if bullet { width - 2 } else { width });
    push_text(out, lines, bullet);
    in_code
}

/// Minimal markdown to screen lines: code fences, `inline code`, `**bold**`,
/// headings and bullet lists, hard-wrapped to `width` (at least eight)
/// columns so that scroll arithmetic is exact.
pub fn render_md(text: &str, width: usize) -> (r: Vec<MdLine>)
    ensures
        md_v(r@) == markdown(text@, width as nat),
{
    let width = if width < 8 { 8 } else { width };
    let v = chars_of(text);
    let lines = split_exec(&v, '\n');
    let ghost lv = lines@.map_values(|x: String| x@);
    let mut out: Vec<MdLine> = Vec::new();
    let mut in_code = false;
    let mut i: usize = 0;
    assert(lv.skip(0) =~= lv);
    assert(md_v(out@) =~= Seq::<MdLineV>::empty());
    while i < lines.len()
        invariant
            i <= lines@.len(),
            lv == lines@.map_values(|x: String| x@),
            lv == split_on(text@, '\n'),
            width >= 8,
            markdown(text@, width as nat) == md_from(lv.skip(i as int), in_code, width as nat, md_v(out@)),
        decreases lines@.len() - i,
    {
        assert(lv.skip(i as int)[0] == lv[i as int]);
        assert(lv.skip(i as int).drop_first() =~= lv.skip(i + 1));
        in_code = md_line(&mut out, lines[i].as_str(), in_code, width);
        i = i + 1;
    }
    assert(lv.skip(i as int) =~= Seq::<Seq<char>>::empty());
    out
}

} // verus!
