//! Character-level text helpers shared by the rest of the library.
//!
//! Everything here works on the `Seq<char>` view of a string, which is what
//! `&str` and `String` expose to specifications.

use vstd::prelude::*;

verus! {

/// `String::push`: appends one character to the end of the string.
#[verifier::external_body]
pub(crate) fn push_char(s: &mut String, c: char)
    ensures
        final(s)@ == old(s)@.push(c),
{
    s.push(c);
}

/// The characters of `s`, in order.
pub fn chars_of(s: &str) -> (r: Vec<char>)
    ensures
        r@ == s@,
{
    let mut v: Vec<char> = Vec::new();
    for c in it: s.chars()
        invariant
            v@ == it.seq().take(it.index() as int),
            it.seq() == s@,
    {
        v.push(c);
    }
    v
}

/// Appends the characters `v[lo..hi]` to `out`.
pub fn push_range(out: &mut String, v: &Vec<char>, lo: usize, hi: usize)
    requires
        lo <= hi <= v@.len(),
    ensures
        final(out)@ == old(out)@ + v@.subrange(lo as int, hi as int),
{
    let mut i = lo;
    while i < hi
        invariant
            lo <= i <= hi <= v@.len(),
            out@ == old(out)@ + v@.subrange(lo as int, i as int),
        decreases hi - i,
    {
        push_char(out, v[i]);
        i = i + 1;
        assert(v@.subrange(lo as int, i as int) =~= v@.subrange(lo as int, i - 1).push(v@[i - 1]));
    }
}

/// Appends all of `s` to `out`.
pub fn push_str(out: &mut String, s: &str)
    ensures
        final(out)@ == old(out)@ + s@,
{
    let v = chars_of(s);
    push_range(out, &v, 0, v.len());
    assert(v@.subrange(0, v@.len() as int) =~= v@);
}

/// A string holding `v[lo..hi]`.
pub fn string_of_range(v: &Vec<char>, lo: usize, hi: usize) -> (r: String)
    requires
        lo <= hi <= v@.len(),
    ensures
        r@ == v@.subrange(lo as int, hi as int),
{
    let mut out = String::new();
    push_range(&mut out, v, lo, hi);
    assert(Seq::<char>::empty() + v@.subrange(lo as int, hi as int) =~= v@.subrange(lo as int, hi as int));
    out
}

/// A string holding exactly the characters of `v`.
pub fn string_of(v: &Vec<char>) -> (r: String)
    ensures
        r@ == v@,
{
    let r = string_of_range(v, 0, v.len());
    assert(v@.subrange(0, v@.len() as int) =~= v@);
    r
}

// ── whitespace ─────────────────────────────────────────────────────────────

/// Unicode `White_Space`, which is what `char::is_whitespace`, `str::trim`
/// and `str::split_whitespace` go by.
pub open spec fn is_ws(c: char) -> bool {
    let u = c as u32;
    ||| 0x09 <= u <= 0x0d
    ||| u == 0x20
    ||| u == 0x85
    ||| u == 0xa0
    ||| u == 0x1680
    ||| 0x2000 <= u <= 0x200a
    ||| u == 0x2028
    ||| u == 0x2029
    ||| u == 0x202f
    ||| u == 0x205f
    ||| u == 0x3000
}

pub fn is_whitespace(c: char) -> (r: bool)
    ensures
        r == is_ws(c),
{
    let u = c as u32;
    (0x09 <= u && u <= 0x0d) || u == 0x20 || u == 0x85 || u == 0xa0 || u == 0x1680
        || (0x2000 <= u && u <= 0x200a) || u == 0x2028 || u == 0x2029 || u == 0x202f
        || u == 0x205f || u == 0x3000
}

/// `s` without leading whitespace.
pub open spec fn trim_start(s: Seq<char>) -> Seq<char>
    decreases s.len(),
{
    if s.len() > 0 && is_ws(s[0]) {
        trim_start(s.drop_first())
    } else {
        s
    }
}

/// `s` without trailing whitespace.
pub open spec fn trim_end(s: Seq<char>) -> Seq<char>
    decreases s.len(),
{
    if s.len() > 0 && is_ws(s.last()) {
        trim_end(s.drop_last())
    } else {
        s
    }
}

/// `s` without leading or trailing whitespace (`str::trim`).
pub open spec fn trim(s: Seq<char>) -> Seq<char> {
    trim_end(trim_start(s))
}

/// Index of the first non-whitespace character of `v[lo..hi]` (or `hi`).
pub fn skip_ws(v: &Vec<char>, lo: usize, hi: usize) -> (r: usize)
    requires
        lo <= hi <= v@.len(),
    ensures
        lo <= r <= hi,
        trim_start(v@.subrange(lo as int, hi as int)) == v@.subrange(r as int, hi as int),
{
    let mut i = lo;
    while i < hi && is_whitespace(v[i])
        invariant
            lo <= i <= hi <= v@.len(),
            trim_start(v@.subrange(lo as int, hi as int)) == trim_start(v@.subrange(i as int, hi as int)),
        decreases hi - i,
    {
        assert(v@.subrange(i as int, hi as int).drop_first() =~= v@.subrange(i + 1, hi as int));
        i = i + 1;
    }
    i
}

/// One past the last non-whitespace character of `v[lo..hi]` (or `lo`).
pub fn skip_ws_back(v: &Vec<char>, lo: usize, hi: usize) -> (r: usize)
    requires
        lo <= hi <= v@.len(),
    ensures
        lo <= r <= hi,
        trim_end(v@.subrange(lo as int, hi as int)) == v@.subrange(lo as int, r as int),
{
    let mut j = hi;
    while j > lo && is_whitespace(v[j - 1])
        invariant
            lo <= j <= hi <= v@.len(),
            trim_end(v@.subrange(lo as int, hi as int)) == trim_end(v@.subrange(lo as int, j as int)),
        decreases j - lo,
    {
        assert(v@.subrange(lo as int, j as int).drop_last() =~= v@.subrange(lo as int, j - 1));
        j = j - 1;
    }
    j
}

/// Bounds of `trim(v[lo..hi])` within `v`.
pub fn trim_bounds(v: &Vec<char>, lo: usize, hi: usize) -> (r: (usize, usize))
    requires
        lo <= hi <= v@.len(),
    ensures
        lo <= r.0 <= r.1 <= hi,
        trim(v@.subrange(lo as int, hi as int)) == v@.subrange(r.0 as int, r.1 as int),
{
    let a = skip_ws(v, lo, hi);
    let b = skip_ws_back(v, a, hi);
    (a, b)
}

/// `str::trim`, as a new string.
pub fn trimmed(s: &str) -> (r: String)
    ensures
        r@ == trim(s@),
{
    let v = chars_of(s);
    let (a, b) = trim_bounds(&v, 0, v.len());
    assert(v@.subrange(0, v@.len() as int) =~= v@);
    string_of_range(&v, a, b)
}

// ── ASCII case ─────────────────────────────────────────────────────────────

pub open spec fn lower_char(c: char) -> char {
    if 'A' <= c <= 'Z' {
        ((c as u32) + 32) as char
    } else {
        c
    }
}

/// `s.to_ascii_lowercase()`.
pub open spec fn lower(s: Seq<char>) -> Seq<char> {
    s.map_values(|c: char| lower_char(c))
}

pub fn to_ascii_lower(c: char) -> (r: char)
    ensures
        r == lower_char(c),
{
    if 'A' <= c && c <= 'Z' {
        let u = (c as u32) + 32;
        assert(0x61 <= u <= 0x7a);
        match char_from_u32(u) {
            Some(d) => d,
            None => c,
        }
    } else {
        c
    }
}

/// A Unicode scalar value: what `char` can hold.
pub open spec fn is_scalar_value(u: u32) -> bool {
    u <= 0xD7FF || (0xE000 <= u && u <= 0x10FFFF)
}

/// `char::from_u32`: the character with code point `u`, if `u` is a Unicode
/// scalar value (at most 0x10FFFF and not a surrogate).
#[verifier::external_body]
pub(crate) fn char_from_u32(u: u32) -> (r: Option<char>)
    ensures
        r is Some <==> is_scalar_value(u),
        r matches Some(c) ==> c as u32 == u && c == u as char,
{
    char::from_u32(u)
}

/// What `str::to_lowercase` returns for a string: the Unicode lowercase
/// mapping, which may change the number of characters.
pub uninterp spec fn unicode_lowercase(s: Seq<char>) -> Seq<char>;

/// `str::to_lowercase`.
#[verifier::external_body]
pub(crate) fn to_lowercase(s: &str) -> (r: String)
    ensures
        r@ == unicode_lowercase(s@),
{
    s.to_lowercase()
}

/// What `str::to_uppercase` returns for a string: the Unicode uppercase
/// mapping, which may change the number of characters.
pub uninterp spec fn unicode_uppercase(s: Seq<char>) -> Seq<char>;

/// `str::to_uppercase`.
#[verifier::external_body]
pub(crate) fn to_uppercase(s: &str) -> (r: String)
    ensures
        r@ == unicode_uppercase(s@),
{
    s.to_uppercase()
}

/// `str::to_ascii_lowercase`, on a character vector.
pub fn lower_vec(v: &Vec<char>) -> (r: Vec<char>)
    ensures
        r@ == lower(v@),
{
    let mut out: Vec<char> = Vec::new();
    let mut i: usize = 0;
    while i < v.len()
        invariant
            i <= v@.len(),
            out@ == lower(v@.take(i as int)),
        decreases v@.len() - i,
    {
        out.push(to_ascii_lower(v[i]));
        i = i + 1;
        assert(lower(v@.take(i as int)) =~= lower(v@.take(i - 1)).push(lower_char(v@[i - 1])));
    }
    assert(v@.take(v@.len() as int) =~= v@);
    out
}

// ── searching ──────────────────────────────────────────────────────────────

/// `p` occurs in `s` starting at index `i`.
pub open spec fn occurs_at(s: Seq<char>, p: Seq<char>, i: int) -> bool {
    0 <= i && i + p.len() <= s.len() && s.subrange(i, i + p.len()) == p
}

pub open spec fn starts_with(s: Seq<char>, p: Seq<char>) -> bool {
    occurs_at(s, p, 0)
}

pub open spec fn ends_with(s: Seq<char>, p: Seq<char>) -> bool {
    occurs_at(s, p, s.len() - p.len())
}

/// The first index at or after `from` where `p` occurs in `s`.
pub open spec fn find_from(s: Seq<char>, p: Seq<char>, from: int) -> Option<int>
    decreases s.len() - from,
{
    if from < 0 || from + p.len() > s.len() {
        None
    } else if occurs_at(s, p, from) {
        Some(from)
    } else {
        proof {
            if p.len() == 0 {
                assert(s.subrange(from, from) =~= p);
            }
        }
        find_from(s, p, from + 1)
    }
}

pub open spec fn find(s: Seq<char>, p: Seq<char>) -> Option<int> {
    find_from(s, p, 0)
}

pub open spec fn contains(s: Seq<char>, p: Seq<char>) -> bool {
    find(s, p) is Some
}

/// Does `p` occur in `v` at `i`?
pub fn matches_at(v: &Vec<char>, p: &Vec<char>, i: usize) -> (r: bool)
    ensures
        r == occurs_at(v@, p@, i as int),
{
    if i > v.len() || p.len() > v.len() - i {
        return false;
    }
    let mut k: usize = 0;
    while k < p.len()
        invariant
            i <= v@.len(),
            i + p@.len() <= v.len(),
            k <= p@.len(),
            v@.subrange(i as int, i + k) =~= p@.take(k as int),
        decreases p@.len() - k,
    {
        if v[i + k] != p[k] {
            assert(v@.subrange(i as int, i + p@.len())[k as int] != p@[k as int]);
            return false;
        }
        k = k + 1;
    }
    assert(p@.take(p@.len() as int) =~= p@);
    true
}

/// Facts about `find_from` that hold at every step of a left-to-right scan.
pub proof fn lemma_find_from_skip(s: Seq<char>, p: Seq<char>, from: int, to: int)
    requires
        0 <= from <= to,
        forall|j: int| from <= j < to ==> !occurs_at(s, p, j),
    ensures
        find_from(s, p, from) == find_from(s, p, to),
    decreases to - from,
{
    if from < to {
        if from + p.len() > s.len() {
            assert(find_from(s, p, from) is None);
            lemma_find_none_beyond(s, p, to);
        } else {
            lemma_find_from_skip(s, p, from + 1, to);
        }
    }
}

pub proof fn lemma_find_none_beyond(s: Seq<char>, p: Seq<char>, from: int)
    requires
        from + p.len() > s.len(),
    ensures
        find_from(s, p, from) is None,
{
}

/// The first index at or after `from` where `p` occurs in `v`.
pub fn find_vec(v: &Vec<char>, p: &Vec<char>, from: usize) -> (r: Option<usize>)
    ensures
        r matches Some(i) ==> find_from(v@, p@, from as int) == Some(i as int),
        r is None ==> find_from(v@, p@, from as int) is None,
{
    let mut i = from;
    while i <= v.len() && p.len() <= v.len() - i
        invariant
            from <= i,
            find_from(v@, p@, from as int) == find_from(v@, p@, i as int),
        decreases v@.len() - i,
    {
        if matches_at(v, p, i) {
            return Some(i);
        }
        proof {
            if p@.len() == 0 {
                assert(v@.subrange(i as int, i as int) =~= p@);
            }
            lemma_find_from_skip(v@, p@, i as int, i + 1);
        }
        i = i + 1;
    }
    None
}

} // verus!

verus! {

/// Is `v` exactly the characters of `s`?
pub fn vec_is(v: &Vec<char>, s: &str) -> (r: bool)
    ensures
        r == (v@ == s@),
{
    let w = chars_of(s);
    if v.len() != w.len() {
        return false;
    }
    let mut i: usize = 0;
    while i < v.len()
        invariant
            w@ == s@,
            v@.len() == w@.len(),
            i <= v@.len(),
            v@.take(i as int) =~= w@.take(i as int),
        decreases v@.len() - i,
    {
        if v[i] != w[i] {
            assert(v@[i as int] != w@[i as int]);
            return false;
        }
        i = i + 1;
        assert(v@.take(i as int) =~= v@.take(i - 1).push(v@[i - 1]));
        assert(w@.take(i as int) =~= w@.take(i - 1).push(w@[i - 1]));
    }
    assert(v@ =~= v@.take(v@.len() as int));
    assert(w@ =~= w@.take(w@.len() as int));
    true
}

/// A copy of `v[lo..hi]`.
pub fn slice_vec(v: &Vec<char>, lo: usize, hi: usize) -> (r: Vec<char>)
    requires
        lo <= hi <= v@.len(),
    ensures
        r@ == v@.subrange(lo as int, hi as int),
{
    let mut out: Vec<char> = Vec::new();
    let mut i = lo;
    while i < hi
        invariant
            lo <= i <= hi <= v@.len(),
            out@ == v@.subrange(lo as int, i as int),
        decreases hi - i,
    {
        out.push(v[i]);
        i = i + 1;
        assert(v@.subrange(lo as int, i as int) =~= v@.subrange(lo as int, i - 1).push(v@[i - 1]));
    }
    out
}

} // verus!

verus! {

/// Does `v` start with `p`?
pub fn has_prefix(v: &Vec<char>, p: &str) -> (r: bool)
    ensures
        r == starts_with(v@, p@),
{
    let pv = chars_of(p);
    matches_at(v, &pv, 0)
}

/// Does `v` end with `p`?
pub fn has_suffix(v: &Vec<char>, p: &str) -> (r: bool)
    ensures
        r == ends_with(v@, p@),
{
    let pv = chars_of(p);
    if pv.len() > v.len() {
        return false;
    }
    matches_at(v, &pv, v.len() - pv.len())
}

/// Does `p` occur at index `i` of `v`?
pub fn has_at(v: &Vec<char>, p: &str, i: usize) -> (r: bool)
    ensures
        r == occurs_at(v@, p@, i as int),
{
    let pv = chars_of(p);
    matches_at(v, &pv, i)
}

/// The first index at or after `from` where `p` occurs in `v`.
pub fn find_str(v: &Vec<char>, p: &str, from: usize) -> (r: Option<usize>)
    ensures
        r matches Some(i) ==> find_from(v@, p@, from as int) == Some(i as int),
        r is None ==> find_from(v@, p@, from as int) is None,
{
    let pv = chars_of(p);
    find_vec(v, &pv, from)
}

/// The first index at or after `from` where the character `c` occurs in `v`.
pub fn find_char(v: &Vec<char>, c: char, from: usize) -> (r: Option<usize>)
    ensures
        r matches Some(i) ==> find_from(v@, seq![c], from as int) == Some(i as int),
        r is None ==> find_from(v@, seq![c], from as int) is None,
{
    let mut pv: Vec<char> = Vec::new();
    pv.push(c);
    assert(pv@ =~= seq![c]);
    find_vec(v, &pv, from)
}

/// Does `v` contain `p`?
pub fn contains_str(v: &Vec<char>, p: &str) -> (r: bool)
    ensures
        r == contains(v@, p@),
{
    find_str(v, p, 0).is_some()
}

/// `s` with every leading copy of `p` removed (`str::trim_start_matches`).
pub open spec fn strip_all(s: Seq<char>, p: Seq<char>) -> Seq<char>
    decreases s.len(),
{
    if p.len() > 0 && starts_with(s, p) {
        strip_all(s.skip(p.len() as int), p)
    } else {
        s
    }
}

/// The part of `s` before the first `c`, or all of `s`
/// (`s.split(c).next()`).
pub open spec fn before(s: Seq<char>, c: char) -> Seq<char> {
    match find(s, seq![c]) {
        Some(i) => s.take(i),
        None => s,
    }
}

/// `trim_start_matches` on `v[lo..]`: the index after the leading copies of `p`.
pub fn skip_all(v: &Vec<char>, p: &str, lo: usize) -> (r: usize)
    requires
        lo <= v@.len(),
        p@.len() > 0,
    ensures
        lo <= r <= v@.len(),
        strip_all(v@.skip(lo as int), p@) == v@.skip(r as int),
{
    let pv = chars_of(p);
    let n = v.len();
    let mut i = lo;
    let mut more = matches_at(v, &pv, i);
    while more
        invariant
            n == v@.len(),
            pv@ == p@,
            p@.len() > 0,
            lo <= i <= v@.len(),
            more == occurs_at(v@, p@, i as int),
            strip_all(v@.skip(lo as int), p@) == strip_all(v@.skip(i as int), p@),
        decreases v@.len() - i,
    {
        assert(v@.skip(i as int).subrange(0, p@.len() as int) =~= v@.subrange(i as int, i + p@.len()));
        assert(v@.skip(i as int).skip(p@.len() as int) =~= v@.skip(i + p@.len()));
        i = i + pv.len();
        more = matches_at(v, &pv, i);
    }
    proof {
        if p@.len() > 0 && starts_with(v@.skip(i as int), p@) {
            assert(v@.skip(i as int).subrange(0, p@.len() as int) =~= v@.subrange(i as int, i + p@.len()));
        }
    }
    i
}

/// The end of the part of `v[lo..hi]` before the first `c` (or `hi`).
pub fn stop_at(v: &Vec<char>, c: char, lo: usize, hi: usize) -> (r: usize)
    requires
        lo <= hi <= v@.len(),
    ensures
        lo <= r <= hi,
        before(v@.subrange(lo as int, hi as int), c) == v@.subrange(lo as int, r as int),
{
    let mut i = lo;
    while i < hi && v[i] != c
        invariant
            lo <= i <= hi <= v@.len(),
            forall|k: int| lo <= k < i ==> v@[k] != c,
        decreases hi - i,
    {
        i = i + 1;
    }
    proof {
        let s = v@.subrange(lo as int, hi as int);
        assert forall|j: int| 0 <= j < i - lo implies !occurs_at(s, seq![c], j) by {
            assert(s.subrange(j, j + 1)[0] == s[j]);
        }
        lemma_find_from_skip(s, seq![c], 0, i - lo);
        if i < hi {
            assert(s.subrange(i - lo, i - lo + 1) =~= seq![c]);
            assert(s.take(i - lo) =~= v@.subrange(lo as int, i as int));
        } else {
            lemma_find_none_beyond(s, seq![c], i - lo);
        }
    }
    i
}

} // verus!

verus! {

/// What `find_from` returns is an occurrence at or after `from`, and the
/// first one.
pub proof fn lemma_find_from_bounds(s: Seq<char>, p: Seq<char>, from: int)
    requires
        from >= 0,
    ensures
        find_from(s, p, from) matches Some(k) ==> from <= k && k + p.len() <= s.len() && occurs_at(s, p, k)
            && forall|j: int| from <= j < k ==> !occurs_at(s, p, j),
        find_from(s, p, from) is None ==> forall|j: int| from <= j ==> !occurs_at(s, p, j),
    decreases s.len() - from,
{
    if from + p.len() > s.len() {
    } else if occurs_at(s, p, from) {
    } else {
        if p.len() == 0 {
            assert(s.subrange(from, from) =~= p);
        }
        lemma_find_from_bounds(s, p, from + 1);
    }
}

/// The lines of `s` (split at `'\n'`), each trimmed, the empty ones left out,
/// joined with `'\n'`; `acc` holds what was joined before index `i`.
pub open spec fn norm_lines_from(s: Seq<char>, i: int, acc: Seq<char>) -> Seq<char>
    decreases s.len() - i + 1,
{
    if i < 0 || i > s.len() {
        acc
    } else {
        let e = match find_from(s, seq!['\n'], i) {
            Some(k) => k,
            None => s.len() as int,
        };
        let t = trim(s.subrange(i, e));
        let acc2 = if t.len() == 0 {
            acc
        } else if acc.len() == 0 {
            t
        } else {
            acc + seq!['\n'] + t
        };
        proof {
            lemma_find_from_bounds(s, seq!['\n'], i);
        }
        if e < s.len() {
            norm_lines_from(s, e + 1, acc2)
        } else {
            acc2
        }
    }
}

/// `s.lines().map(str::trim).filter(|l| !l.is_empty()).collect::<Vec<_>>().join("\n")`.
pub open spec fn norm_lines(s: Seq<char>) -> Seq<char> {
    norm_lines_from(s, 0, seq![])
}

/// The non-empty trimmed lines of `s`, joined with newlines.
pub fn normalize_lines(s: &Vec<char>) -> (r: String)
    ensures
        r@ == norm_lines(s@),
{
    let mut out = String::new();
    let mut i: usize = 0;
    let n = s.len();
    loop
        invariant
            n == s@.len(),
            i <= n,
            norm_lines_from(s@, i as int, out@) == norm_lines(s@),
        decreases n - i,
    {
        proof {
            lemma_find_from_bounds(s@, seq!['\n'], i as int);
        }
        let e = match find_char(s, '\n', i) {
            Some(k) => k,
            None => n,
        };
        let (a, b) = trim_bounds(s, i, e);
        let ghost old_out = out@;
        let ghost t = trim(s@.subrange(i as int, e as int));
        if a < b {
            if !out.as_str().is_empty() {
                push_char(&mut out, '\n');
            }
            push_range(&mut out, s, a, b);
        }
        proof {
            let acc2 = if t.len() == 0 {
                old_out
            } else if old_out.len() == 0 {
                t
            } else {
                old_out + seq!['\n'] + t
            };
            assert(out@ =~= acc2);
        }
        if e < n {
            i = e + 1;
        } else {
            return out;
        }
    }
}

} // verus!

verus! {

// ── Decimal numbers ────────────────────────────────────────────────────────

pub open spec fn digit_char(d: nat) -> char {
    ((d % 10) + 48) as char
}

/// The decimal digits of `n`, as `format!("{}", n)` writes them.
pub open spec fn decimal(n: nat) -> Seq<char>
    decreases n,
{
    if n < 10 {
        seq![digit_char(n)]
    } else {
        decimal(n / 10).push(digit_char(n % 10))
    }
}

fn digit_to_char(d: u128) -> (r: char)
    requires
        d < 10,
    ensures
        r == digit_char(d as nat),
{
    let u = (d as u32) + 48;
    match char_from_u32(u) {
        Some(c) => c,
        None => '0',
    }
}

/// Appends the decimal digits of `n` to `out`.
pub fn push_decimal(out: &mut String, n: u128)
    ensures
        final(out)@ == old(out)@ + decimal(n as nat),
    decreases n,
{
    if n < 10 {
        push_char(out, digit_to_char(n));
        assert(old(out)@.push(digit_char(n as nat)) =~= old(out)@ + decimal(n as nat));
    } else {
        push_decimal(out, n / 10);
        push_char(out, digit_to_char(n % 10));
        assert(old(out)@ + decimal((n / 10) as nat) + seq![digit_char((n % 10) as nat)] =~= old(out)@ + decimal(n as nat));
    }
}

/// `n.to_string()`.
pub fn decimal_string(n: u128) -> (r: String)
    ensures
        r@ == decimal(n as nat),
{
    let mut s = String::new();
    push_decimal(&mut s, n);
    assert(Seq::<char>::empty() + decimal(n as nat) =~= decimal(n as nat));
    s
}

} // verus!

verus! {

// ── UTF-8 lengths ──────────────────────────────────────────────────────────

/// Bytes in the UTF-8 encoding of `c`.
pub open spec fn char_width(c: char) -> nat {
    let u = c as u32;
    if u <= 0x7F {
        1
    } else if u <= 0x7FF {
        2
    } else if u <= 0xFFFF {
        3
    } else {
        4
    }
}

/// Bytes in the UTF-8 encoding of `s`: what `str::len` returns.
pub open spec fn utf8_len(s: Seq<char>) -> nat
    decreases s.len(),
{
    if s.len() == 0 {
        0
    } else {
        utf8_len(s.drop_last()) + char_width(s.last())
    }
}

proof fn lemma_encode_concat(a: Seq<char>, b: Seq<char>)
    ensures
        vstd::utf8::encode_utf8(a + b) == vstd::utf8::encode_utf8(a) + vstd::utf8::encode_utf8(b),
    decreases a.len(),
{
    if a.len() == 0 {
        assert(a + b =~= b);
        assert(vstd::utf8::encode_utf8(a) =~= Seq::<u8>::empty());
        assert(Seq::<u8>::empty() + vstd::utf8::encode_utf8(b) =~= vstd::utf8::encode_utf8(b));
    } else {
        assert((a + b).drop_first() =~= a.drop_first() + b);
        assert((a + b)[0] == a[0]);
        lemma_encode_concat(a.drop_first(), b);
        assert(vstd::utf8::encode_utf8(a + b) =~= vstd::utf8::encode_utf8(a) + vstd::utf8::encode_utf8(b));
    }
}

/// The byte length `str::len` reports is `utf8_len` of the characters.
pub proof fn lemma_utf8_len(s: Seq<char>)
    ensures
        vstd::utf8::encode_utf8(s).len() == utf8_len(s),
    decreases s.len(),
{
    if s.len() > 0 {
        let a = s.drop_last();
        let b = seq![s.last()];
        assert(s =~= a + b);
        lemma_encode_concat(a, b);
        lemma_utf8_len(a);
        vstd::utf8::char_is_scalar(s.last());
        assert(vstd::utf8::encode_scalar(s.last() as u32).len() == char_width(s.last()));
        assert(b.drop_first() =~= Seq::<char>::empty());
        assert(vstd::utf8::encode_utf8(b) =~= vstd::utf8::encode_scalar(s.last() as u32) + vstd::utf8::encode_utf8(Seq::<char>::empty()));
        assert(vstd::utf8::encode_utf8(Seq::<char>::empty()) =~= Seq::<u8>::empty());
    }
}

/// Byte count of `v[..k]` grows by the width of `v[k]`.
pub proof fn lemma_utf8_len_take(v: Seq<char>, k: int)
    requires
        0 <= k < v.len(),
    ensures
        utf8_len(v.take(k + 1)) == utf8_len(v.take(k)) + char_width(v[k]),
{
    assert(v.take(k + 1).drop_last() =~= v.take(k));
}

/// The byte count grows with the prefix.
pub proof fn lemma_utf8_len_mono(v: Seq<char>, j: int, k: int)
    requires
        0 <= j <= k <= v.len(),
    ensures
        utf8_len(v.take(j)) <= utf8_len(v.take(k)),
    decreases k - j,
{
    if j < k {
        lemma_utf8_len_take(v, k - 1);
        lemma_utf8_len_mono(v, j, k - 1);
    }
}

pub fn char_width_of(c: char) -> (r: usize)
    ensures
        r == char_width(c),
        1 <= r <= 4,
{
    let u = c as u32;
    if u <= 0x7F {
        1
    } else if u <= 0x7FF {
        2
    } else if u <= 0xFFFF {
        3
    } else {
        4
    }
}

/// The number of bytes of `s` (`str::len`), which is `utf8_len` of `s@`.
pub fn byte_len(s: &str) -> (r: usize)
    ensures
        r == utf8_len(s@) as usize,
        r as int == utf8_len(s@),
{
    proof {
        lemma_utf8_len(s@);
    }
    let b = s.as_bytes();
    b.len()
}

/// The longest prefix `v[..k]` whose UTF-8 encoding has at most `max` bytes:
/// where byte `max` is a character boundary, exactly the first `max` bytes.
pub open spec fn is_byte_prefix_end(v: Seq<char>, max: nat, k: int) -> bool {
    &&& 0 <= k <= v.len()
    &&& utf8_len(v.take(k)) <= max
    &&& (k < v.len() ==> utf8_len(v.take(k + 1)) > max)
}

pub fn byte_prefix_end(v: &Vec<char>, max: usize) -> (k: usize)
    ensures
        is_byte_prefix_end(v@, max as nat, k as int),
{
    let mut k: usize = 0;
    let mut used: usize = 0;
    assert(v@.take(0) =~= Seq::<char>::empty());
    while k < v.len()
        invariant
            k <= v@.len(),
            used == utf8_len(v@.take(k as int)),
            used <= max,
        decreases v@.len() - k,
    {
        let w = char_width_of(v[k]);
        proof {
            lemma_utf8_len_take(v@, k as int);
        }
        if w > max - used {
            return k;
        }
        used = used + w;
        k = k + 1;
    }
    k
}

} // verus!

verus! {

/// The decimal form of a signed integer, with a leading `-` when negative.
pub open spec fn int_decimal(n: int) -> Seq<char> {
    if n < 0 {
        seq!['-'] + decimal((-n) as nat)
    } else {
        decimal(n as nat)
    }
}

/// Appends the decimal form of `n` to `out`.
pub fn push_int(out: &mut String, n: i64)
    ensures
        final(out)@ == old(out)@ + int_decimal(n as int),
{
    if n < 0 {
        push_char(out, '-');
        let m: u64 = if n == i64::MIN { 0x8000_0000_0000_0000u64 } else { (-n) as u64 };
        push_decimal(out, m as u128);
        assert(old(out)@.push('-') + decimal(m as nat) =~= old(out)@ + int_decimal(n as int));
    } else {
        push_decimal(out, n as u128);
    }
}

// ── Lines ──────────────────────────────────────────────────────────────────

/// A line ended by `'\n'` loses a `'\r'` just before it.
pub open spec fn line_end_trim(l: Seq<char>) -> Seq<char> {
    if l.len() > 0 && l.last() == '\r' {
        l.drop_last()
    } else {
        l
    }
}

/// The lines of `s` from index `i`, as `str::lines` yields them: split at
/// `'\n'` (a `"\r\n"` ending counts as one), no empty line after a final
/// newline.
pub open spec fn lines_from(s: Seq<char>, i: int) -> Seq<Seq<char>>
    decreases s.len() - i,
{
    if i < 0 || i >= s.len() {
        seq![]
    } else {
        match find_from(s, seq!['\n'], i) {
            Some(k) => {
                proof {
                    lemma_find_from_bounds(s, seq!['\n'], i);
                }
                seq![line_end_trim(s.subrange(i, k))] + lines_from(s, k + 1)
            },
            None => seq![s.subrange(i, s.len() as int)],
        }
    }
}

pub open spec fn lines_of(s: Seq<char>) -> Seq<Seq<char>> {
    lines_from(s, 0)
}

/// `ls.join(sep)`.
pub open spec fn join(ls: Seq<Seq<char>>, sep: Seq<char>) -> Seq<char>
    decreases ls.len(),
{
    if ls.len() == 0 {
        seq![]
    } else if ls.len() == 1 {
        ls[0]
    } else {
        join(ls.drop_last(), sep) + sep + ls.last()
    }
}

/// The line that starts at index `i`: where it ends (before its `'\n'` or
/// `"\r\n"`) and where the next line starts.
pub fn line_at(v: &Vec<char>, i: usize) -> (r: (usize, usize))
    requires
        i < v@.len(),
    ensures
        i <= r.0 <= r.1 <= v@.len(),
        i < r.1,
        lines_from(v@, i as int) == seq![v@.subrange(i as int, r.0 as int)] + lines_from(v@, r.1 as int),
{
    let n = v.len();
    proof {
        lemma_find_from_bounds(v@, seq!['\n'], i as int);
    }
    let (e, next) = match find_char(v, '\n', i) {
        Some(k) => {
            let e = if k > i && v[k - 1] == '\r' { k - 1 } else { k };
            (e, k + 1)
        }
        None => (n, n),
    };
    proof {
        let line = v@.subrange(i as int, e as int);
        match find_from(v@, seq!['\n'], i as int) {
            Some(k) => {
                assert(line == line_end_trim(v@.subrange(i as int, k)));
            }
            None => {
                assert(lines_from(v@, next as int) =~= Seq::<Seq<char>>::empty());
                assert(lines_from(v@, i as int) =~= seq![line] + lines_from(v@, next as int));
            }
        }
    }
    (e, next)
}

/// The first `max` lines of `v`, joined with `'\n'`, and how many lines `v`
/// has in all.
pub fn first_lines(v: &Vec<char>, max: usize) -> (r: (String, usize))
    ensures
        r.0@ == join(lines_of(v@).take(if max < lines_of(v@).len() { max as int } else { lines_of(v@).len() as int }), seq!['\n']),
        r.1 == lines_of(v@).len(),
{
    let n = v.len();
    let mut out = String::new();
    let mut count: usize = 0;
    let mut i: usize = 0;
    let ghost mut done: Seq<Seq<char>> = seq![];
    assert(lines_of(v@) =~= done + lines_from(v@, 0));
    while i < n
        invariant
            n == v@.len(),
            i <= n,
            count == done.len(),
            count <= i,
            lines_of(v@) == done + lines_from(v@, i as int),
            out@ == join(done.take(if max < done.len() { max as int } else { done.len() as int }), seq!['\n']),
        decreases n - i,
    {
        proof {
            lemma_find_from_bounds(v@, seq!['\n'], i as int);
        }
        let (e, next) = match find_char(v, '\n', i) {
            Some(k) => {
                let e = if k > i && v[k - 1] == '\r' { k - 1 } else { k };
                (e, k + 1)
            }
            None => (n, n),
        };
        let ghost line = v@.subrange(i as int, e as int);
        proof {
            let rest = lines_from(v@, i as int);
            match find_from(v@, seq!['\n'], i as int) {
                Some(k) => {
                    assert(line == line_end_trim(v@.subrange(i as int, k)));
                    assert(rest == seq![line] + lines_from(v@, next as int));
                }
                None => {
                    assert(rest == seq![line]);
                    assert(lines_from(v@, next as int) =~= Seq::<Seq<char>>::empty());
                    assert(rest =~= seq![line] + lines_from(v@, next as int));
                }
            }
        }
        if count < max {
            if count > 0 {
                push_char(&mut out, '\n');
            }
            push_range(&mut out, v, i, e);
        }
        proof {
            let d2 = done.push(line);
            if count < max {
                assert(d2.take(d2.len() as int) =~= d2);
                assert(done.take(done.len() as int) =~= done);
                assert(d2.drop_last() =~= done);
                if count == 0 {
                    assert(out@ =~= join(d2, seq!['\n']));
                } else {
                    assert(out@ =~= join(d2, seq!['\n']));
                }
            } else {
                assert(d2.take(max as int) =~= done.take(max as int));
            }
            assert(lines_of(v@) =~= d2 + lines_from(v@, next as int));
            done = d2;
        }
        count = count + 1;
        i = next;
    }
    assert(lines_from(v@, i as int) =~= Seq::<Seq<char>>::empty());
    assert(lines_of(v@) =~= done);
    (out, count)
}

} // verus!

verus! {

/// `s` without trailing copies of `c` (`str::trim_end_matches`).
pub open spec fn trim_end_char(s: Seq<char>, c: char) -> Seq<char>
    decreases s.len(),
{
    if s.len() > 0 && s.last() == c {
        trim_end_char(s.drop_last(), c)
    } else {
        s
    }
}

/// The end of `v` without its trailing copies of `c`.
pub fn skip_char_back(v: &Vec<char>, c: char) -> (r: usize)
    ensures
        r <= v@.len(),
        trim_end_char(v@, c) == v@.take(r as int),
{
    let mut j = v.len();
    assert(v@.take(j as int) =~= v@);
    while j > 0 && v[j - 1] == c
        invariant
            j <= v@.len(),
            trim_end_char(v@, c) == trim_end_char(v@.take(j as int), c),
        decreases j,
    {
        assert(v@.take(j as int).drop_last() =~= v@.take(j - 1));
        j = j - 1;
    }
    j
}

} // verus!

verus! {

/// Are the two strings equal?
pub fn str_eq(a: &str, b: &str) -> (r: bool)
    ensures
        r == (a@ == b@),
{
    let v = chars_of(a);
    vec_is(&v, b)
}

} // verus!

verus! {

/// The whitespace-separated words of `s` (`str::split_whitespace`).
pub open spec fn words(s: Seq<char>) -> Seq<Seq<char>>
    decreases s.len(),
{
    let t = trim_start(s);
    if t.len() == 0 {
        Seq::empty()
    } else {
        proof {
            lemma_trim_start_len(s);
            lemma_word_len_bound(t);
        }
        let w = t.take(word_len_of(t) as int);
        seq![w] + words(t.skip(word_len_of(t) as int))
    }
}

/// Length of the leading run of non-whitespace characters.
pub open spec fn word_len_of(s: Seq<char>) -> nat
    decreases s.len(),
{
    if s.len() == 0 || is_ws(s[0]) {
        0
    } else {
        1 + word_len_of(s.drop_first())
    }
}

pub proof fn lemma_trim_start_len(s: Seq<char>)
    ensures
        trim_start(s).len() <= s.len(),
        trim_start(s).len() > 0 ==> !is_ws(trim_start(s)[0]),
        exists|k: int| 0 <= k <= s.len() && trim_start(s) == s.skip(k),
    decreases s.len(),
{
    if s.len() > 0 && is_ws(s[0]) {
        lemma_trim_start_len(s.drop_first());
        let k = choose|k: int| 0 <= k <= s.drop_first().len() && trim_start(s.drop_first()) == s.drop_first().skip(k);
        assert(s.drop_first().skip(k) =~= s.skip(k + 1));
    } else {
        assert(s.skip(0) =~= s);
    }
}

pub proof fn lemma_word_len_bound(s: Seq<char>)
    ensures
        word_len_of(s) <= s.len(),
        s.len() > 0 && !is_ws(s[0]) ==> word_len_of(s) > 0,
    decreases s.len(),
{
    if s.len() > 0 && !is_ws(s[0]) {
        lemma_word_len_bound(s.drop_first());
    }
}

/// The first three words of `v[lo..]` (absent ones are `None`).
pub fn first_three_words(v: &Vec<char>) -> (r: (Option<Vec<char>>, Option<Vec<char>>, Option<Vec<char>>))
    ensures
        ({
            let ws = words(v@);
            &&& (ws.len() > 0 ==> (r.0 matches Some(w) && w@ == ws[0])) && (ws.len() == 0 ==> r.0 is None)
            &&& (ws.len() > 1 ==> (r.1 matches Some(w) && w@ == ws[1])) && (ws.len() <= 1 ==> r.1 is None)
            &&& (ws.len() > 2 ==> (r.2 matches Some(w) && w@ == ws[2])) && (ws.len() <= 2 ==> r.2 is None)
        }),
{
    let n = v.len();
    assert(v@.subrange(0, n as int) =~= v@);
    let (w0, p0) = next_word(v, 0);
    let (w1, p1) = next_word(v, p0);
    let (w2, _p2) = next_word(v, p1);
    proof {
        assert(v@.skip(0) =~= v@);
    }
    (w0, w1, w2)
}

/// The next word of `v` from `lo`, and the index after it.
pub(crate) fn next_word(v: &Vec<char>, lo: usize) -> (r: (Option<Vec<char>>, usize))
    requires
        lo <= v@.len(),
    ensures
        lo <= r.1 <= v@.len(),
        words(v@.skip(lo as int)).len() == 0 ==> r.0 is None && words(v@.skip(r.1 as int)).len() == 0,
        words(v@.skip(lo as int)).len() > 0 ==> (r.0 matches Some(w) && w@ == words(v@.skip(lo as int))[0]
            && words(v@.skip(r.1 as int)) == words(v@.skip(lo as int)).drop_first()),
{
    let n = v.len();
    let a = skip_ws(v, lo, n);
    let ghost s = v@.skip(lo as int);
    assert(v@.subrange(lo as int, n as int) =~= s);
    assert(v@.subrange(a as int, n as int) =~= v@.skip(a as int));
    proof {
        lemma_trim_start_len(s);
    }
    if a == n {
        proof {
            assert(trim_start(s).len() == 0);
            assert(v@.skip(n as int) =~= Seq::<char>::empty());
            assert(trim_start(Seq::<char>::empty()) =~= Seq::<char>::empty());
        }
        return (None, n);
    }
    let e = crate::types::word_end(v, a, n);
    proof {
        let t = v@.skip(a as int);
        assert(t == trim_start(s));
        lemma_word_len_eq(v@.subrange(a as int, n as int));
        assert(t.take(word_len_of(t) as int) =~= v@.subrange(a as int, e as int));
        assert(t.skip(word_len_of(t) as int) =~= v@.skip(e as int));
    }
    (Some(slice_vec(v, a, e)), e)
}

proof fn lemma_word_len_eq(s: Seq<char>)
    ensures
        word_len_of(s) == crate::types::word_len(s),
    decreases s.len(),
{
    if s.len() > 0 && !is_ws(s[0]) {
        lemma_word_len_eq(s.drop_first());
    }
}

} // verus!
