//! Benchmark runs: which depths a setting measures at, whether a model is
//! installed, and the order of the steps with the progress each reports.
//! Choosing the models and measuring them is the caller's business.

use vstd::prelude::*;
use crate::text::{chars_of, has_prefix, starts_with, str_eq};

verus! {

/// The measurement depths of a benchmark setting: `quick`; `balanced` (also
/// for `standard`); all three for `all`; `full` for anything else.
pub open spec fn depths_of(tier: Seq<char>) -> Seq<Seq<char>> {
    if tier == "quick"@ {
        seq!["quick"@]
    } else if tier == "balanced"@ || tier == "standard"@ {
        seq!["balanced"@]
    } else if tier == "all"@ {
        seq!["quick"@, "balanced"@, "full"@]
    } else {
        seq!["full"@]
    }
}

pub fn bench_depths(tier: &str) -> (r: Vec<String>)
    ensures
        r@.map_values(|s: String| s@) == depths_of(tier@),
{
    let r = if str_eq(tier, "quick") {
        vec![String::from_str("quick")]
    } else if str_eq(tier, "balanced") || str_eq(tier, "standard") {
        vec![String::from_str("balanced")]
    } else if str_eq(tier, "all") {
        vec![String::from_str("quick"), String::from_str("balanced"), String::from_str("full")]
    } else {
        vec![String::from_str("full")]
    };
    assert(r@.map_values(|s: String| s@) =~= depths_of(tier@));
    r
}

/// Is the model pulled as `tag` installed: is some installed name the tag
/// itself or one that starts with it?
pub open spec fn installed_in(installed: Seq<Seq<char>>, tag: Seq<char>) -> bool {
    exists|i: int| 0 <= i < installed.len() && starts_with(#[trigger] installed[i], tag)
}

pub fn is_installed(installed: &Vec<String>, tag: &str) -> (r: bool)
    ensures
        r == installed_in(installed@.map_values(|s: String| s@), tag@),
{
    let ghost names = installed@.map_values(|s: String| s@);
    let mut i: usize = 0;
    while i < installed.len()
        invariant
            i <= installed@.len(),
            names == installed@.map_values(|s: String| s@),
            forall|j: int| 0 <= j < i ==> !starts_with(#[trigger] names[j], tag@),
        decreases installed@.len() - i,
    {
        if has_prefix(&chars_of(installed[i].as_str()), tag) {
            assert(names[i as int] == installed@[i as int]@);
            return true;
        }
        assert(names[i as int] == installed@[i as int]@);
        i = i + 1;
    }
    false
}

/// One step of a benchmark run.
#[derive(Debug, Clone, Copy, PartialEq, Eq, Structural)]
pub enum BenchStep {
    /// The target at this index is not installed: offer to download it.
    NeedsDownload { target: usize, pct: u32 },
    /// Measure the target at this index at the depth at this index.
    Measure { target: usize, depth: usize, pct: u32 },
}

/// The progress shown after `done` of `total` measurements: from 10 to 90.
pub open spec fn pct_of(done: nat, total: nat) -> nat {
    10 + 80 * done / total
}

/// The steps for target `k`, after `k * depths` measurements were counted
/// (a missing target counts as all of its depths).
pub open spec fn steps_for(k: int, installed: bool, depths: nat, total: nat) -> Seq<BenchStep> {
    if installed {
        Seq::new(depths, |j: int| BenchStep::Measure {
            target: k as usize,
            depth: j as usize,
            pct: pct_of((k * depths + j) as nat, total) as u32,
        })
    } else {
        seq![BenchStep::NeedsDownload { target: k as usize, pct: pct_of((k * depths) as nat, total) as u32 }]
    }
}

/// The steps for the first `k` targets, in order.
pub open spec fn steps_upto(inst: Seq<bool>, k: int, depths: nat, total: nat) -> Seq<BenchStep>
    decreases k,
{
    if k <= 0 {
        Seq::empty()
    } else {
        steps_upto(inst, k - 1, depths, total) + steps_for(k - 1, inst[k - 1], depths, total)
    }
}

/// The measurements of a run over the targets pulled as `tags`, at
/// `depths` depths each: in order of the targets, each installed one at
/// every depth, each missing one offered for download once; the progress
/// of a step counts what came before it out of all targets times depths.
pub fn bench_steps(tags: &Vec<String>, installed: &Vec<String>, depths: usize) -> (r: Vec<BenchStep>)
    requires
        tags@.len() * depths * 80 <= u32::MAX,
    ensures
        r@ == steps_upto(
            tags@.map_values(|t: String| installed_in(installed@.map_values(|s: String| s@), t@)),
            tags@.len() as int,
            depths as nat,
            if tags@.len() * depths >= 1 { (tags@.len() * depths) as nat } else { 1 },
        ),
{
    let ghost inst = tags@.map_values(|t: String| installed_in(installed@.map_values(|s: String| s@), t@));
    let n = tags.len();
    proof {
        assert(n * depths <= n * depths * 80) by (nonlinear_arith)
            requires n * depths >= 0;
    }
    let prod = n * depths;
    let total: u32 = if prod >= 1 { prod as u32 } else { 1 };
    let mut out: Vec<BenchStep> = Vec::new();
    let mut k: usize = 0;
    while k < n
        invariant
            k <= n,
            n == tags@.len(),
            n * depths * 80 <= u32::MAX,
            prod == n * depths,
            total as int == if prod >= 1 { prod as int } else { 1 },
            inst == tags@.map_values(|t: String| installed_in(installed@.map_values(|s: String| s@), t@)),
            out@ == steps_upto(inst, k as int, depths as nat, total as nat),
        decreases n - k,
    {
        proof {
            assert(k * depths <= n * depths) by (nonlinear_arith)
                requires k <= n;
            assert((k + 1) * depths <= n * depths) by (nonlinear_arith)
                requires k < n;
            assert((k + 1) * depths == k * depths + depths) by (nonlinear_arith);
        }
        let base = k * depths;
        let here = is_installed(installed, tags[k].as_str());
        assert(here == inst[k as int]);
        let ghost before = out@;
        if here {
            let mut j: usize = 0;
            while j < depths
                invariant
                    j <= depths,
                    base == k * depths,
                    base + depths <= prod,
                    prod * 80 <= u32::MAX,
                    total as int == if prod >= 1 { prod as int } else { 1 },
                    out@ == before + steps_for(k as int, true, depths as nat, total as nat).take(j as int),
                decreases depths - j,
            {
                let done = (base + j) as u32;
                let pct = 10 + 80 * done / total;
                out.push(BenchStep::Measure { target: k, depth: j, pct });
                proof {
                    let sf = steps_for(k as int, true, depths as nat, total as nat);
                    assert(sf[j as int] == BenchStep::Measure { target: k, depth: j, pct });
                    assert(sf.take(j + 1) =~= sf.take(j as int).push(sf[j as int]));
                }
                j = j + 1;
            }
            assert(steps_for(k as int, true, depths as nat, total as nat).take(depths as int)
                =~= steps_for(k as int, true, depths as nat, total as nat));
        } else {
            let done = base as u32;
            let pct = 10 + 80 * done / total;
            out.push(BenchStep::NeedsDownload { target: k, pct });
            assert(out@ =~= before + steps_for(k as int, false, depths as nat, total as nat));
        }
        k = k + 1;
    }
    out
}

} // verus!
