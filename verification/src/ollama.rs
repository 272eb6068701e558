//! Ollama model tags: which installed tag answers for a catalog tag, and the
//! tags a server reports.

use vstd::prelude::*;
use crate::json::{json_array_item, json_array_len, json_member_text, json_str_member};
use crate::text::{before, chars_of, find, starts_with, utf8_len};

verus! {

/// The part of a tag before its first `:` (`split(':').next()`).
pub open spec fn tag_base(t: Seq<char>) -> Seq<char> {
    before(t, ':')
}

/// The part of a tag between its first and second `:`, if it has a `:`
/// (`split(':').nth(1)`).
pub open spec fn tag_size(t: Seq<char>) -> Option<Seq<char>> {
    match find(t, seq![':']) {
        Some(k) => Some(before(t.skip(k + 1), ':')),
        None => None,
    }
}

/// The installed tags (the first `n`) whose base name is `base`, in order.
pub open spec fn same_base(installed: Seq<Seq<char>>, base: Seq<char>, n: int) -> Seq<Seq<char>>
    decreases n,
{
    if n <= 0 {
        Seq::empty()
    } else if tag_base(installed[n - 1]) == base {
        same_base(installed, base, n - 1).push(installed[n - 1])
    } else {
        same_base(installed, base, n - 1)
    }
}

/// The candidates (the first `n`) whose size part starts with `size`.
pub open spec fn with_size(cands: Seq<Seq<char>>, size: Seq<char>, n: int) -> Seq<Seq<char>>
    decreases n,
{
    if n <= 0 {
        Seq::empty()
    } else if tag_size(cands[n - 1]) matches Some(s) && starts_with(s, size) {
        with_size(cands, size, n - 1).push(cands[n - 1])
    } else {
        with_size(cands, size, n - 1)
    }
}

/// The first of the shortest tags (in bytes) among the first `n`: what a
/// stable sort by length puts first.
pub open spec fn first_shortest(ts: Seq<Seq<char>>, n: int) -> Option<Seq<char>>
    decreases n,
{
    if n <= 0 {
        None
    } else {
        match first_shortest(ts, n - 1) {
            Some(b) => if utf8_len(ts[n - 1]) < utf8_len(b) { Some(ts[n - 1]) } else { Some(b) },
            None => Some(ts[n - 1]),
        }
    }
}

/// The installed tag that answers for `desired`: the tag itself when it is
/// installed; else, among installed tags with the same base name (narrowed
/// to those whose size part starts with the requested size, when the
/// request has one and some match), the first of the shortest.
pub open spec fn resolved(desired: Seq<char>, installed: Seq<Seq<char>>) -> Option<Seq<char>> {
    if installed.contains(desired) {
        Some(desired)
    } else {
        let cands = same_base(installed, tag_base(desired), installed.len() as int);
        let want = match tag_size(desired) { Some(s) => s, None => Seq::empty() };
        let sized = with_size(cands, want, cands.len() as int);
        let pool = if want.len() > 0 && sized.len() > 0 { sized } else { cands };
        first_shortest(pool, pool.len() as int)
    }
}

fn base_end(v: &Vec<char>) -> (r: usize)
    ensures
        r <= v@.len(),
        tag_base(v@) == v@.take(r as int),
{
    let n = v.len();
    let e = crate::text::stop_at(v, ':', 0, n);
    assert(v@.subrange(0, n as int) =~= v@);
    assert(v@.subrange(0, e as int) =~= v@.take(e as int));
    e
}

fn size_part(v: &Vec<char>) -> (r: Option<Vec<char>>)
    ensures
        match tag_size(v@) {
            Some(s) => r matches Some(w) && w@ == s,
            None => r is None,
        },
{
    let n = v.len();
    proof {
        crate::text::lemma_find_from_bounds(v@, seq![':'], 0);
    }
    match crate::text::find_char(v, ':', 0) {
        Some(k) => {
            let e = crate::text::stop_at(v, ':', k + 1, n);
            assert(v@.subrange(k + 1, n as int) =~= v@.skip(k + 1));
            Some(crate::text::slice_vec(v, k + 1, e))
        }
        None => None,
    }
}

fn byte_count(v: &Vec<char>) -> (r: u128)
    ensures
        r == utf8_len(v@),
{
    let len = v.len();
    let mut n: u128 = 0;
    let mut i: usize = 0;
    while i < len
        invariant
            len == v@.len(),
            i <= v@.len(),
            n == utf8_len(v@.take(i as int)),
            n <= 4 * i,
        decreases v@.len() - i,
    {
        proof {
            crate::text::lemma_utf8_len_take(v@, i as int);
        }
        n = n + crate::text::char_width_of(v[i]) as u128;
        i = i + 1;
    }
    assert(v@.take(v@.len() as int) =~= v@);
    n
}

/// Maps a catalog tag onto a tag that is actually installed.
pub fn resolve_model(desired: &str, installed: &Vec<String>) -> (r: Option<String>)
    ensures
        match resolved(desired@, installed@.map_values(|t: String| t@)) {
            Some(t) => r matches Some(s) && s@ == t,
            None => r is None,
        },
{
    let ghost ins = installed@.map_values(|t: String| t@);
    let mut i: usize = 0;
    while i < installed.len()
        invariant
            ins == installed@.map_values(|t: String| t@),
            i <= installed@.len(),
            forall|k: int| 0 <= k < i ==> installed@[k]@ != desired@,
        decreases installed@.len() - i,
    {
        if crate::text::str_eq(installed[i].as_str(), desired) {
            assert(ins[i as int] == desired@);
            assert(ins.contains(desired@));
            return Some(String::from_str(desired));
        }
        i = i + 1;
    }
    proof {
        if ins.contains(desired@) {
            let k = choose|k: int| 0 <= k < ins.len() && ins[k] == desired@;
            assert(installed@[k]@ == desired@);
        }
    }
    let dv = chars_of(desired);
    let de = base_end(&dv);
    let want_base = crate::text::slice_vec(&dv, 0, de);
    assert(dv@.subrange(0, de as int) =~= dv@.take(de as int));
    let empty: Vec<char> = Vec::new();
    assert(empty@ =~= Seq::<char>::empty());
    let want: Vec<char> = match size_part(&dv) {
        Some(w) => w,
        None => empty,
    };
    let ghost want_v = match tag_size(desired@) { Some(s) => s, None => Seq::<char>::empty() };
    assert(want@ =~= want_v);
    // Candidates with the same base name, in order.
    let mut cands: Vec<Vec<char>> = Vec::new();
    let mut j: usize = 0;
    while j < installed.len()
        invariant
            ins == installed@.map_values(|t: String| t@),
            j <= installed@.len(),
            want_base@ == tag_base(desired@),
            cands@.map_values(|c: Vec<char>| c@) == same_base(ins, tag_base(desired@), j as int),
        decreases installed@.len() - j,
    {
        let tv = chars_of(installed[j].as_str());
        let te = base_end(&tv);
        let tb = crate::text::slice_vec(&tv, 0, te);
        assert(tv@.subrange(0, te as int) =~= tv@.take(te as int));
        let ghost before = cands@.map_values(|c: Vec<char>| c@);
        if tb.len() == want_base.len() && crate::text::matches_at(&tb, &want_base, 0) {
            assert(tb@ =~= want_base@);
            cands.push(tv);
        } else {
            proof {
                if tb@ == want_base@ {
                    assert(tb@.subrange(0, want_base@.len() as int) =~= tb@);
                }
            }
        }
        j = j + 1;
        assert(cands@.map_values(|c: Vec<char>| c@) =~= same_base(ins, tag_base(desired@), j as int));
    }
    let ghost cs = cands@.map_values(|c: Vec<char>| c@);
    // Those that also carry the requested size.
    let mut sized: Vec<Vec<char>> = Vec::new();
    let mut k: usize = 0;
    while k < cands.len()
        invariant
            cs == cands@.map_values(|c: Vec<char>| c@),
            k <= cands@.len(),
            want@ == want_v,
            sized@.map_values(|c: Vec<char>| c@) == with_size(cs, want_v, k as int),
        decreases cands@.len() - k,
    {
        let ghost before = sized@.map_values(|c: Vec<char>| c@);
        let keep = match size_part(&cands[k]) {
            Some(sz) => crate::text::matches_at(&sz, &want, 0),
            None => false,
        };
        assert(cs[k as int] == cands@[k as int]@);
        if keep {
            let c = crate::text::slice_vec(&cands[k], 0, cands[k].len());
            assert(cands@[k as int]@.subrange(0, cands@[k as int]@.len() as int) =~= cands@[k as int]@);
            sized.push(c);
        }
        k = k + 1;
        assert(sized@.map_values(|c: Vec<char>| c@) =~= with_size(cs, want_v, k as int));
    }
    let pool = if want.len() > 0 && sized.len() > 0 { sized } else { cands };
    let ghost ps = pool@.map_values(|c: Vec<char>| c@);
    // The first of the shortest.
    let mut best: Option<usize> = None;
    let mut best_len: u128 = 0;
    let mut m: usize = 0;
    while m < pool.len()
        invariant
            ps == pool@.map_values(|c: Vec<char>| c@),
            m <= pool@.len(),
            match first_shortest(ps, m as int) {
                Some(b) => best matches Some(bi) && bi < m && ps[bi as int] == b && best_len == utf8_len(b),
                None => best is None,
            },
        decreases pool@.len() - m,
    {
        assert(ps[m as int] == pool@[m as int]@);
        let l = byte_count(&pool[m]);
        match best {
            Some(bi) => {
                if l < best_len {
                    best = Some(m);
                    best_len = l;
                }
            }
            None => {
                best = Some(m);
                best_len = l;
            }
        }
        m = m + 1;
    }
    match best {
        Some(bi) => {
            assert(ps[bi as int] == pool@[bi as int]@);
            Some(crate::text::string_of(&pool[bi]))
        }
        None => None,
    }
}

/// The model tags in an Ollama `/api/tags` response (the `name` of each
/// entry of `models`, where it is a string).
pub open spec fn tags_in(body: Seq<char>) -> Seq<Seq<char>> {
    match json_array_len(body, "models"@) {
        Some(n) => named_items(body, n as int),
        None => Seq::empty(),
    }
}

pub open spec fn named_items(body: Seq<char>, n: int) -> Seq<Seq<char>>
    decreases n,
{
    if n <= 0 {
        Seq::empty()
    } else {
        let rest = named_items(body, n - 1);
        match json_array_item(body, "models"@, (n - 1) as usize) {
            Some(item) => match json_str_member(item, "name"@) {
                Some(name) => rest.push(name),
                None => rest,
            },
            None => rest,
        }
    }
}

pub fn tags_from_response(body: &str) -> (r: Vec<String>)
    ensures
        r@.map_values(|s: String| s@) == tags_in(body@),
{
    let mut out: Vec<String> = Vec::new();
    let n = match crate::json::array_len(body, "models") {
        Some(n) => n,
        None => {
            assert(out@.map_values(|s: String| s@) =~= Seq::<Seq<char>>::empty());
            return out;
        }
    };
    let mut i: usize = 0;
    assert(out@.map_values(|s: String| s@) =~= Seq::<Seq<char>>::empty());
    while i < n
        invariant
            i <= n,
            json_array_len(body@, "models"@) == Some(n),
            out@.map_values(|s: String| s@) == named_items(body@, i as int),
        decreases n - i,
    {
        let ghost before = out@.map_values(|s: String| s@);
        if let Some(item) = crate::json::array_item(body, "models", i) {
            if let Some(name) = crate::json::str_member(item.as_str(), "name") {
                out.push(name);
            }
        }
        i = i + 1;
        assert(out@.map_values(|s: String| s@) =~= named_items(body@, i as int));
    }
    out
}

/// Where Ollama is usually installed, probed before `PATH`.
pub fn wellknown_bins() -> (r: Vec<&'static str>)
    ensures
        r@.len() == 4,
        r@[0]@ == "/opt/homebrew/bin/ollama"@,
        r@[1]@ == "/usr/local/bin/ollama"@,
        r@[2]@ == "/usr/bin/ollama"@,
        r@[3]@ == "/opt/homebrew/opt/ollama/bin/ollama"@,
{
    vec!["/opt/homebrew/bin/ollama", "/usr/local/bin/ollama", "/usr/bin/ollama", "/opt/homebrew/opt/ollama/bin/ollama"]
}

} // verus!
