//! Reading what the hardware probes print: `nvidia-smi`'s GPU table and
//! CUDA banner, `system_profiler`'s GPU core count, and the sysfs names of
//! Intel integrated GPUs, and the JSON `rocm-smi` prints for AMD cards.
//! Running the probes is the caller's business.

use vstd::prelude::*;
use crate::text::{
    chars_of, contains, contains_str, find, find_str, has_prefix, is_ws, line_at, lines_from, lines_of, lower, lower_vec,
    skip_ws, slice_vec, starts_with, string_of, string_of_range, trim, trim_start, trimmed, words,
};
use crate::types::{AppleSilicon, Gpu};
use crate::web::{parse_u32, parse_u32_radix};

verus! {

/// `s` split at every `c` (`str::split`): empty pieces are kept.
pub open spec fn split_on(s: Seq<char>, c: char) -> Seq<Seq<char>>
    decreases s.len(),
{
    match find(s, seq![c]) {
        Some(k) => if 0 <= k < s.len() { seq![s.take(k)] + split_on(s.skip(k + 1), c) } else { seq![s] },
        None => seq![s],
    }
}

/// `u64::from_str`: an optional `+`, then at least one decimal digit, with a
/// value that fits in `u64`.
pub open spec fn parse_u64_of(s: Seq<char>) -> Option<u64> {
    let d = if s.len() > 0 && s[0] == '+' { s.drop_first() } else { s };
    if d.len() == 0 {
        None
    } else {
        match crate::web::digits_value(d, 10) {
            Some(v) => if v <= u64::MAX { Some(v as u64) } else { None },
            None => None,
        }
    }
}

/// `str::parse::<u64>`.
fn parse_u64(s: &str) -> (r: Option<u64>)
    ensures
        r == parse_u64_of(s@),
{
    let v = chars_of(s);
    let hi = v.len();
    let mut i: usize = 0;
    if i < hi && v[i] == '+' {
        i = i + 1;
    }
    let ghost d = v@.subrange(i as int, hi as int);
    assert(d =~= (if s@.len() > 0 && s@[0] == '+' { s@.drop_first() } else { s@ }));
    if i == hi {
        return None;
    }
    let mut acc: u128 = 0;
    let mut over = false;
    let start = i;
    while i < hi
        invariant
            start <= i <= hi == v@.len(),
            start < hi,
            d == v@.subrange(start as int, hi as int),
            d == (if s@.len() > 0 && s@[0] == '+' { s@.drop_first() } else { s@ }),
            d.len() > 0,
            crate::web::digits_value(v@.subrange(start as int, i as int), 10) is Some,
            !over ==> crate::web::digits_value(v@.subrange(start as int, i as int), 10) == Some(acc as nat),
            !over ==> acc <= u64::MAX,
            over ==> crate::web::digits_value(v@.subrange(start as int, i as int), 10)->0 > u64::MAX,
        decreases hi - i,
    {
        let ghost pre = v@.subrange(start as int, i as int);
        let ghost nxt = v@.subrange(start as int, i + 1);
        assert(nxt.drop_last() =~= pre);
        match crate::web::digit_value(v[i], 10) {
            None => {
                assert(crate::web::digits_value(nxt, 10) is None);
                proof {
                    if crate::web::digits_value(d, 10) is Some {
                        assert(d.take(nxt.len() as int) =~= nxt);
                        crate::web::lemma_digits_value_grows(d, 10, nxt.len() as int);
                    }
                }
                return None;
            }
            Some(dg) => {
                let ghost pv = crate::web::digits_value(pre, 10)->0;
                assert(pv <= pv * 10 + dg);
                if !over {
                    acc = acc * 10 + (dg as u128);
                    if acc > 0xffff_ffff_ffff_ffffu128 {
                        over = true;
                    }
                }
            }
        }
        i = i + 1;
    }
    assert(v@.subrange(start as int, hi as int) =~= d);
    if over {
        None
    } else {
        Some(acc as u64)
    }
}

/// Splits `v[lo..hi]` at every `c`.
pub(crate) fn split_exec(v: &Vec<char>, c: char) -> (r: Vec<String>)
    ensures
        r@.map_values(|x: String| x@) == split_on(v@, c),
{
    let n = v.len();
    let mut out: Vec<String> = Vec::new();
    let mut i: usize = 0;
    assert(v@.skip(0) =~= v@);
    loop
        invariant
            i <= n,
            n == v@.len(),
            split_on(v@, c) == out@.map_values(|x: String| x@) + split_on(v@.skip(i as int), c),
        decreases n - i,
    {
        let ghost rest = v@.skip(i as int);
        let ghost before = out@.map_values(|x: String| x@);
        proof {
            crate::text::lemma_find_from_bounds(rest, seq![c], 0);
        }
        match crate::text::find_char(v, c, i) {
            Some(k) => {
                proof {
                    lemma_find_shift(v@, seq![c], i as int, k as int);
                }
                let piece = string_of_range(v, i, k);
                assert(rest.take(k - i) =~= v@.subrange(i as int, k as int));
                assert(rest.skip(k - i + 1) =~= v@.skip(k + 1));
                out.push(piece);
                assert(out@.map_values(|x: String| x@) =~= before.push(v@.subrange(i as int, k as int)));
                assert(split_on(v@, c) =~= out@.map_values(|x: String| x@) + split_on(v@.skip(k + 1), c));
                i = k + 1;
            }
            None => {
                proof {
                    lemma_find_none_shift(v@, seq![c], i as int);
                }
                let piece = string_of_range(v, i, n);
                assert(v@.subrange(i as int, n as int) =~= rest);
                out.push(piece);
                assert(out@.map_values(|x: String| x@) =~= before.push(rest));
                return out;
            }
        }
    }
}

/// Searching from `i` in `s` is searching `s.skip(i)` from its start.
proof fn lemma_find_shift(s: Seq<char>, p: Seq<char>, i: int, k: int)
    requires
        0 <= i <= s.len(),
        crate::text::find_from(s, p, i) == Some(k),
    ensures
        find(s.skip(i), p) == Some(k - i),
        i <= k < s.len() || p.len() == 0,
{
    crate::text::lemma_find_from_bounds(s, p, i);
    crate::text::lemma_find_from_bounds(s.skip(i), p, 0);
    let t = s.skip(i);
    assert forall|j: int| 0 <= j implies crate::text::occurs_at(t, p, j) == crate::text::occurs_at(s, p, j + i) by {
        if 0 <= j && j + p.len() <= t.len() {
            assert(t.subrange(j, j + p.len()) =~= s.subrange(j + i, j + i + p.len()));
        }
    }
    match find(t, p) {
        Some(m) => {
            assert(crate::text::occurs_at(s, p, m + i));
            if m + i < k {
            }
            assert(crate::text::occurs_at(t, p, k - i));
        }
        None => {
            assert(crate::text::occurs_at(t, p, k - i));
        }
    }
}

proof fn lemma_find_none_shift(s: Seq<char>, p: Seq<char>, i: int)
    requires
        0 <= i <= s.len(),
        crate::text::find_from(s, p, i) is None,
    ensures
        find(s.skip(i), p) is None,
{
    crate::text::lemma_find_from_bounds(s, p, i);
    crate::text::lemma_find_from_bounds(s.skip(i), p, 0);
    let t = s.skip(i);
    match find(t, p) {
        Some(m) => {
            assert(t.subrange(m, m + p.len()) =~= s.subrange(m + i, m + i + p.len()));
            assert(crate::text::occurs_at(s, p, m + i));
        }
        None => {}
    }
}

// ── NVIDIA ─────────────────────────────────────────────────────────────────

/// A field of an `nvidia-smi` CSV row, when it is there and not empty.
pub open spec fn field(fields: Seq<Seq<char>>, i: int) -> Option<Seq<char>> {
    if 0 <= i < fields.len() && fields[i].len() > 0 { Some(fields[i]) } else { None }
}

pub open spec fn row_fields(line: Seq<char>) -> Seq<Seq<char>> {
    split_on(line, ',').map_values(|f: Seq<char>| trim(f))
}

pub open spec fn opt_seq(o: Option<String>) -> Option<Seq<char>> {
    match o {
        Some(s) => Some(s@),
        None => None,
    }
}

/// A GPU read from one `nvidia-smi` row
/// (`name, memory.total, memory.free, driver_version, compute_cap`).
pub open spec fn nvidia_gpu_is(g: Gpu, line: Seq<char>, cuda: Option<Seq<char>>) -> bool {
    let f = row_fields(line);
    &&& g.vendor@ == "NVIDIA"@
    &&& g.model@ == f[0]
    &&& g.vram_total_mb == match field(f, 1) { Some(t) => parse_u64_of(t), None => None }
    &&& g.vram_free_mb == match field(f, 2) { Some(t) => parse_u64_of(t), None => None }
    &&& opt_seq(g.driver_version) == field(f, 3)
    &&& opt_seq(g.cuda_version) == cuda
    &&& opt_seq(g.compute_capability) == field(f, 4)
    &&& g.backend@ == "cuda"@
    &&& !g.is_integrated
}

/// A row that describes a GPU: its first field is not empty.
pub open spec fn is_gpu_row(l: Seq<char>) -> bool {
    row_fields(l)[0].len() > 0
}

pub open spec fn gpu_rows_of(ls: Seq<Seq<char>>) -> Seq<Seq<char>> {
    ls.filter(|l: Seq<char>| is_gpu_row(l))
}

/// The rows of `nvidia-smi`'s output that describe a GPU.
pub open spec fn gpu_rows(out: Seq<char>) -> Seq<Seq<char>> {
    gpu_rows_of(lines_of(out))
}

proof fn lemma_rows_push(ls: Seq<Seq<char>>, l: Seq<char>)
    ensures
        gpu_rows_of(ls.push(l)) == if is_gpu_row(l) { gpu_rows_of(ls).push(l) } else { gpu_rows_of(ls) },
{
    reveal(Seq::filter);
    assert(ls.push(l).drop_last() =~= ls);
}

fn field_of(fields: &Vec<String>, i: usize) -> (r: Option<String>)
    ensures
        opt_seq(r) == field(fields@.map_values(|x: String| x@), i as int),
{
    if i < fields.len() && !fields[i].as_str().is_empty() {
        Some(fields[i].clone())
    } else {
        None
    }
}

fn mb_of(fields: &Vec<String>, i: usize) -> (r: Option<u64>)
    ensures
        r == match field(fields@.map_values(|x: String| x@), i as int) { Some(t) => parse_u64_of(t), None => None },
{
    match field_of(fields, i) {
        Some(t) => parse_u64(t.as_str()),
        None => None,
    }
}

/// The GPUs listed by `nvidia-smi --query-gpu=... --format=csv,noheader,nounits`,
/// each with the CUDA version read from the banner.
pub fn nvidia_gpus(out: &str, cuda: Option<String>) -> (r: Vec<Gpu>)
    ensures
        r@.len() == gpu_rows(out@).len(),
        forall|k: int| 0 <= k < r@.len() ==> nvidia_gpu_is(#[trigger] r@[k], gpu_rows(out@)[k], opt_seq(cuda)),
{
    let v = chars_of(out);
    let n = v.len();
    let mut gpus: Vec<Gpu> = Vec::new();
    let mut i: usize = 0;
    let ghost mut done: Seq<Seq<char>> = seq![];
    assert(lines_of(v@) =~= done + lines_from(v@, 0));
    assert(gpu_rows_of(done) =~= Seq::<Seq<char>>::empty()) by {
        reveal(Seq::filter);
    }
    while i < n
        invariant
            n == v@.len(),
            v@ == out@,
            i <= n,
            lines_of(v@) == done + lines_from(v@, i as int),
            gpus@.len() == gpu_rows_of(done).len(),
            forall|k: int| 0 <= k < gpus@.len() ==> nvidia_gpu_is(#[trigger] gpus@[k], gpu_rows_of(done)[k], opt_seq(cuda)),
        decreases n - i,
    {
        let (e, next) = line_at(&v, i);
        let l = slice_vec(&v, i, e);
        let raw = split_exec(&l, ',');
        let mut fields: Vec<String> = Vec::new();
        let mut j: usize = 0;
        while j < raw.len()
            invariant
                j <= raw@.len(),
                fields@.map_values(|x: String| x@) == raw@.map_values(|x: String| x@).take(j as int).map_values(|f: Seq<char>| trim(f)),
            decreases raw@.len() - j,
        {
            let t = trimmed(raw[j].as_str());
            let ghost before = fields@.map_values(|x: String| x@);
            let ghost rv = raw@.map_values(|x: String| x@);
            assert(rv[j as int] == raw@[j as int]@);
            fields.push(t);
            assert(fields@.map_values(|x: String| x@) =~= before.push(trim(rv[j as int])));
            assert(rv.take(j + 1) =~= rv.take(j as int).push(rv[j as int]));
            j = j + 1;
            assert(fields@.map_values(|x: String| x@) =~= raw@.map_values(|x: String| x@).take(j as int).map_values(|f: Seq<char>| trim(f)));
        }
        let ghost fs = fields@.map_values(|x: String| x@);
        assert(raw@.map_values(|x: String| x@).take(j as int) =~= raw@.map_values(|x: String| x@));
        assert(fs == row_fields(l@));
        proof {
            lemma_split_nonempty(l@, ',');
        }
        let ghost d2 = done.push(l@);
        assert(d2.drop_last() =~= done);
        if fields.len() > 0 && !fields[0].as_str().is_empty() {
            let g = Gpu {
                vendor: String::from_str("NVIDIA"),
                model: fields[0].clone(),
                vram_total_mb: mb_of(&fields, 1),
                vram_free_mb: mb_of(&fields, 2),
                driver_version: field_of(&fields, 3),
                cuda_version: cuda.clone(),
                compute_capability: field_of(&fields, 4),
                backend: String::from_str("cuda"),
                is_integrated: false,
            };
            proof {
                lemma_rows_push(done, l@);
            }
            gpus.push(g);
        } else {
            proof {
                lemma_rows_push(done, l@);
            }
        }
        proof {
            assert(lines_of(v@) =~= d2 + lines_from(v@, next as int));
            done = d2;
        }
        i = next;
    }
    assert(lines_from(v@, i as int) =~= Seq::<Seq<char>>::empty());
    assert(lines_of(v@) =~= done);
    gpus
}

proof fn lemma_split_nonempty(s: Seq<char>, c: char)
    ensures
        split_on(s, c).len() > 0,
{
}

/// The CUDA version from the `nvidia-smi` banner: the digits and dots after
/// `CUDA Version:` (and any whitespace), when there are any.
pub open spec fn cuda_version_of(out: Seq<char>) -> Option<Seq<char>> {
    match find(out, "CUDA Version:"@) {
        Some(i) => {
            let rest = trim_start(out.skip(i + 13));
            let v = rest.take(version_run(rest) as int);
            if v.len() == 0 { None } else { Some(v) }
        },
        None => None,
    }
}

pub open spec fn is_version_char(c: char) -> bool {
    ('0' <= c <= '9') || c == '.'
}

/// How many characters at the start of `s` are digits or dots.
pub open spec fn version_run(s: Seq<char>) -> nat
    decreases s.len(),
{
    if s.len() == 0 || !is_version_char(s[0]) { 0 } else { 1 + version_run(s.drop_first()) }
}

pub fn nvidia_cuda_version(out: &str) -> (r: Option<String>)
    ensures
        opt_seq(r) == cuda_version_of(out@),
{
    let v = chars_of(out);
    let n = v.len();
    proof {
        reveal_strlit("CUDA Version:");
        crate::text::lemma_find_from_bounds(v@, "CUDA Version:"@, 0);
    }
    let i = match find_str(&v, "CUDA Version:", 0) {
        Some(i) => i,
        None => return None,
    };
    let a = skip_ws(&v, i + 13, n);
    assert(v@.subrange(i + 13, n as int) =~= v@.skip(i + 13));
    let mut k = a;
    assert(v@.subrange(a as int, n as int) =~= v@.subrange(a as int, n as int).skip(0));
    while k < n && (('0' <= v[k] && v[k] <= '9') || v[k] == '.')
        invariant
            a <= k <= n,
            n == v@.len(),
            version_run(v@.subrange(a as int, n as int)) == (k - a) + version_run(v@.subrange(k as int, n as int)),
        decreases n - k,
    {
        assert(v@.subrange(k as int, n as int).drop_first() =~= v@.subrange(k + 1, n as int));
        k = k + 1;
    }
    assert(version_run(v@.subrange(k as int, n as int)) == 0) by {
        if k < n {
            assert(v@.subrange(k as int, n as int)[0] == v@[k as int]);
        }
    }
    assert(v@.subrange(a as int, n as int).take((k - a) as int) =~= v@.subrange(a as int, k as int));
    if k == a {
        None
    } else {
        Some(string_of_range(&v, a, k))
    }
}

// ── Apple Silicon and Intel iGPUs ──────────────────────────────────────────

/// The GPU core count from `system_profiler SPDisplaysDataType`: on the
/// first line naming `Total Number of Cores`, the first word after the first
/// `:`, as a `u32`.
pub open spec fn gpu_cores_of(out: Seq<char>) -> Option<u32> {
    let ls = lines_of(out);
    if exists|i: int| 0 <= i < ls.len() && contains(#[trigger] ls[i], "Total Number of Cores"@) {
        let i = choose|i: int| 0 <= i < ls.len() && contains(#[trigger] ls[i], "Total Number of Cores"@)
            && forall|j: int| 0 <= j < i ==> !contains(#[trigger] ls[j], "Total Number of Cores"@);
        let parts = split_on(ls[i], ':');
        if parts.len() < 2 {
            None
        } else {
            let ws = words(trim(parts[1]));
            if ws.len() == 0 { None } else { parse_u32_radix(ws[0], 10) }
        }
    } else {
        None
    }
}

pub fn gpu_cores(out: &str) -> (r: Option<u32>)
    ensures
        r == gpu_cores_of(out@),
{
    let v = chars_of(out);
    let n = v.len();
    let mut i: usize = 0;
    let ghost mut done: Seq<Seq<char>> = seq![];
    assert(lines_of(v@) =~= done + lines_from(v@, 0));
    while i < n
        invariant
            n == v@.len(),
            v@ == out@,
            i <= n,
            lines_of(v@) == done + lines_from(v@, i as int),
            forall|j: int| 0 <= j < done.len() ==> !contains(#[trigger] done[j], "Total Number of Cores"@),
        decreases n - i,
    {
        let (e, next) = line_at(&v, i);
        let l = slice_vec(&v, i, e);
        let ghost ls = lines_of(v@);
        assert(ls[done.len() as int] == l@);
        if contains_str(&l, "Total Number of Cores") {
            proof {
                let k = done.len() as int;
                let c = choose|i: int| 0 <= i < ls.len() && contains(#[trigger] ls[i], "Total Number of Cores"@)
                    && forall|j: int| 0 <= j < i ==> !contains(#[trigger] ls[j], "Total Number of Cores"@);
                assert forall|j: int| 0 <= j < k implies !contains(#[trigger] ls[j], "Total Number of Cores"@) by {
                    assert(ls[j] == done[j]);
                }
                if c < k {
                    assert(ls[c] == done[c]);
                } else if c > k {
                    assert(!contains(ls[k], "Total Number of Cores"@));
                }
                assert(c == k);
            }
            let parts = split_exec(&l, ':');
            if parts.len() < 2 {
                return None;
            }
            let t = trimmed(parts[1].as_str());
            let tv = chars_of(t.as_str());
            let (w0, _, _) = crate::text::first_three_words(&tv);
            return match w0 {
                Some(w) => {
                    let wl = w.len();
                    let r = parse_u32(&w, 0, wl, 10);
                    assert(w@.subrange(0, wl as int) =~= w@);
                    r
                }
                None => None,
            };
        }
        proof {
            assert(lines_of(v@) =~= done.push(l@) + lines_from(v@, next as int));
            done = done.push(l@);
        }
        i = next;
    }
    assert(lines_from(v@, i as int) =~= Seq::<Seq<char>>::empty());
    assert(lines_of(v@) =~= done);
    None
}

/// Apple Silicon: unified memory and a Neural Engine always; the chip name
/// from `sysctl` (`Apple Silicon` when it could not be read) and the GPU core
/// count from `system_profiler`.
pub fn apple_silicon(chip: Option<String>, profiler: Option<String>) -> (r: AppleSilicon)
    ensures
        r.unified_memory && r.neural_engine,
        r.chip@ == match chip { Some(c) => c@, None => "Apple Silicon"@ },
        r.gpu_cores == match profiler { Some(p) => gpu_cores_of(p@), None => None },
{
    let gpu_cores = match &profiler {
        Some(p) => gpu_cores(p.as_str()),
        None => None,
    };
    AppleSilicon {
        unified_memory: true,
        gpu_cores,
        neural_engine: true,
        chip: match chip {
            Some(c) => c,
            None => String::from_str("Apple Silicon"),
        },
    }
}

/// A DRM device that is a card itself (`card0`), not one of its connectors
/// (`card0-HDMI-A-1`).
pub fn is_render_card(name: &str) -> (r: bool)
    ensures
        r == (starts_with(name@, "card"@) && !name@.contains('-')),
{
    let v = chars_of(name);
    if !has_prefix(&v, "card") {
        return false;
    }
    let mut i: usize = 0;
    while i < v.len()
        invariant
            i <= v@.len(),
            v@ == name@,
            forall|k: int| 0 <= k < i ==> v@[k] != '-',
        decreases v@.len() - i,
    {
        if v[i] == '-' {
            return false;
        }
        i = i + 1;
    }
    true
}

/// A sysfs PCI vendor id that is Intel's (`0x8086`, in any case, with
/// whitespace around).
pub fn is_intel_vendor(vendor: &str) -> (r: bool)
    ensures
        r == (lower(trim(vendor@)) == "0x8086"@),
{
    let t = trimmed(vendor);
    let low = string_of(&lower_vec(&chars_of(t.as_str())));
    crate::text::str_eq(low.as_str(), "0x8086")
}

/// An Intel integrated GPU (it shares system RAM, so its memory is unknown).
pub fn intel_igpu() -> (g: Gpu)
    ensures
        g.vendor@ == "Intel"@,
        g.model@ == "Intel integrated GPU"@,
        g.vram_total_mb is None && g.vram_free_mb is None,
        g.driver_version is None && g.cuda_version is None && g.compute_capability is None,
        g.backend@ == "vulkan"@,
        g.is_integrated,
{
    Gpu {
        vendor: String::from_str("Intel"),
        model: String::from_str("Intel integrated GPU"),
        vram_total_mb: None,
        vram_free_mb: None,
        driver_version: None,
        cuda_version: None,
        compute_capability: None,
        backend: String::from_str("vulkan"),
        is_integrated: true,
    }
}


// ── AMD (rocm-smi) ─────────────────────────────────────────────────────────

/// A JSON value as the probes read it: a string, an object (its members in
/// the order they are walked), or anything else.
#[derive(Debug)]
pub enum Json {
    Str(String),
    Obj(Vec<(String, Json)>),
    Other,
}

/// The first string stored, in a depth-first walk of the members `es`,
/// under a key whose ASCII lowercase form contains `needle`.
pub open spec fn find_in(es: Seq<(String, Json)>, needle: Seq<char>) -> Option<Seq<char>>
    decreases es,
{
    if es.len() == 0 {
        None
    } else {
        let k = es[0].0;
        let v = es[0].1;
        if contains(lower(k@), needle) && v is Str {
            Some(v->Str_0@)
        } else {
            let inner = match v {
                Json::Obj(sub) => {
                    proof {
                        assert(decreases_to!(es => es[0]));
                    }
                    find_in(sub@, needle)
                },
                _ => None,
            };
            match inner {
                Some(x) => Some(x),
                None => find_in(es.drop_first(), needle),
            }
        }
    }
}

/// Recursively searches a JSON value for the first string stored under a
/// key that contains `needle`, ignoring ASCII case (which absorbs
/// `rocm-smi`'s differing key spellings).
pub open spec fn find_first(v: Json, needle: Seq<char>) -> Option<Seq<char>> {
    match v {
        Json::Obj(es) => find_in(es@, lower(needle)),
        _ => None,
    }
}

fn find_in_exec(es: &Vec<(String, Json)>, needle: &Vec<char>) -> (r: Option<String>)
    ensures
        opt_seq(r) == find_in(es@, needle@),
    decreases es@,
{
    let n = es.len();
    let mut i: usize = 0;
    assert(es@.skip(0) =~= es@);
    while i < n
        invariant
            i <= n,
            n == es@.len(),
            find_in(es@, needle@) == find_in(es@.skip(i as int), needle@),
        decreases n - i,
    {
        let ghost rest = es@.skip(i as int);
        assert(rest[0] == es@[i as int]);
        assert(rest.drop_first() =~= es@.skip(i + 1));
        let key = lower_vec(&chars_of(es[i].0.as_str()));
        let hit = crate::text::find_vec(&key, needle, 0);
        proof {
            crate::text::lemma_find_from_bounds(key@, needle@, 0);
        }
        match &es[i].1 {
            Json::Str(t) => {
                if hit.is_some() {
                    return Some(t.clone());
                }
            }
            Json::Obj(sub) => {
                proof {
                    assert(decreases_to!(es@ => es@[i as int]));
                }
                let found = find_in_exec(sub, needle);
                if found.is_some() {
                    return found;
                }
            }
            Json::Other => {}
        }
        i = i + 1;
    }
    assert(es@.skip(n as int) =~= Seq::<(String, Json)>::empty());
    None
}

/// `find_first` over a value.
pub fn find_first_string(v: &Json, needle: &str) -> (r: Option<String>)
    ensures
        opt_seq(r) == find_first(*v, needle@),
{
    match v {
        Json::Obj(es) => {
            let nl = lower_vec(&chars_of(needle));
            find_in_exec(es, &nl)
        }
        _ => None,
    }
}


pub const MIB: u64 = 1048576;

/// The first present of three lookups.
pub open spec fn first_of(a: Option<Seq<char>>, b: Option<Seq<char>>, c: Option<Seq<char>>) -> Option<Seq<char>> {
    match a {
        Some(x) => Some(x),
        None => match b {
            Some(x) => Some(x),
            None => c,
        },
    }
}

/// A byte count read under `key`, in MiB.
pub open spec fn mib_under(info: Json, key: Seq<char>) -> Option<u64> {
    match find_first(info, key) {
        Some(t) => match parse_u64_of(t) {
            Some(b) => Some((b / MIB) as u64),
            None => None,
        },
        None => None,
    }
}

/// The GPU `rocm-smi` describes under one `card…` entry.
pub open spec fn amd_gpu_is(g: Gpu, info: Json, driver: Option<Seq<char>>) -> bool {
    let total = mib_under(info, "VRAM Total Memory (B)"@);
    &&& g.vendor@ == "AMD"@
    &&& g.model@ == match first_of(
        find_first(info, "Card Series"@),
        find_first(info, "Card model"@),
        find_first(info, "Card SKU"@),
    ) {
        Some(m) => m,
        None => "AMD GPU"@,
    }
    &&& g.vram_total_mb == total
    &&& g.vram_free_mb == match mib_under(info, "VRAM Total Used Memory (B)"@) {
        Some(used) => match total {
            Some(t) => Some(if t >= used { (t - used) as u64 } else { 0 }),
            None => None,
        },
        None => None,
    }
    &&& opt_seq(g.driver_version) == driver
    &&& g.cuda_version is None
    &&& g.compute_capability is None
    &&& g.backend@ == "rocm"@
    &&& !g.is_integrated
}

/// The entries of the top-level object whose key starts with `card`, in
/// order (the `system` entry and the like are skipped).
pub open spec fn cards(es: Seq<(String, Json)>) -> Seq<Json>
    decreases es.len(),
{
    if es.len() == 0 {
        Seq::empty()
    } else if starts_with(es.last().0@, "card"@) {
        cards(es.drop_last()).push(es.last().1)
    } else {
        cards(es.drop_last())
    }
}

pub open spec fn cards_of(v: Json) -> Seq<Json> {
    match v {
        Json::Obj(es) => cards(es@),
        _ => Seq::empty(),
    }
}

fn mib_of(info: &Json, key: &str) -> (r: Option<u64>)
    ensures
        r == mib_under(*info, key@),
{
    match find_first_string(info, key) {
        Some(t) => match parse_u64(t.as_str()) {
            Some(b) => Some(b / MIB),
            None => None,
        },
        None => None,
    }
}

fn amd_gpu(info: &Json, driver: &Option<String>) -> (g: Gpu)
    ensures
        amd_gpu_is(g, *info, opt_seq(*driver)),
{
    let model = match find_first_string(info, "Card Series") {
        Some(m) => m,
        None => match find_first_string(info, "Card model") {
            Some(m) => m,
            None => match find_first_string(info, "Card SKU") {
                Some(m) => m,
                None => String::from_str("AMD GPU"),
            },
        },
    };
    let total = mib_of(info, "VRAM Total Memory (B)");
    let free = match mib_of(info, "VRAM Total Used Memory (B)") {
        Some(used) => match total {
            Some(t) => Some(if t >= used { t - used } else { 0 }),
            None => None,
        },
        None => None,
    };
    let driver_version = match driver {
        Some(d) => Some(d.clone()),
        None => None,
    };
    Gpu {
        vendor: String::from_str("AMD"),
        model,
        vram_total_mb: total,
        vram_free_mb: free,
        driver_version,
        cuda_version: None,
        compute_capability: None,
        backend: String::from_str("rocm"),
        is_integrated: false,
    }
}

/// The GPUs in `rocm-smi --showproductname --showmeminfo vram --json`: one
/// per top-level `card…` entry, with the driver version read separately.
pub fn amd_gpus(json: &Json, driver: Option<String>) -> (r: Vec<Gpu>)
    ensures
        r@.len() == cards_of(*json).len(),
        forall|k: int| 0 <= k < r@.len() ==> amd_gpu_is(#[trigger] r@[k], cards_of(*json)[k], opt_seq(driver)),
{
    let mut gpus: Vec<Gpu> = Vec::new();
    match json {
        Json::Obj(es) => {
            let n = es.len();
            let mut i: usize = 0;
            while i < n
                invariant
                    i <= n,
                    n == es@.len(),
                    gpus@.len() == cards(es@.take(i as int)).len(),
                    forall|k: int| 0 <= k < gpus@.len() ==> amd_gpu_is(#[trigger] gpus@[k], cards(es@.take(i as int))[k], opt_seq(driver)),
                decreases n - i,
            {
                assert(es@.take(i + 1).drop_last() =~= es@.take(i as int));
                assert(es@.take(i + 1).last() == es@[i as int]);
                let key = chars_of(es[i].0.as_str());
                if has_prefix(&key, "card") {
                    let g = amd_gpu(&es[i].1, &driver);
                    gpus.push(g);
                }
                i = i + 1;
            }
            assert(es@.take(n as int) =~= es@);
        }
        _ => {}
    }
    gpus
}

} // verus!
