//! The integer side of rating models for a machine: which memory pool a
//! model runs from, whether it fits, and which measured benchmark belongs to
//! it. Speed estimates are floating point and are computed by the caller.

use vstd::prelude::*;
use crate::text::{chars_of, decimal, lower, lower_vec, push_decimal, push_str, starts_with, str_eq, string_of};
use crate::chat::{lemma_lex_total, lemma_lex_trans, lex_less, lex_lt};
use crate::render::{ctx_text, fmt_ctx, fmt_mb, gb_tenths};
use crate::types::Tier;
use crate::types::{AppleSilicon, Gpu, Memory};

verus! {

/// The memory available for inference on a machine.
#[derive(Debug, Clone, Copy, PartialEq, Eq, Structural)]
pub struct MachineMemory {
    /// VRAM usable for offload (discrete GPUs), or the unified pool on Apple
    /// Silicon; 0 when there is no usable accelerator memory.
    pub gpu_mb: u64,
    /// System RAM (the CPU path).
    pub ram_mb: u64,
    /// Apple Silicon unified memory: the GPU shares the RAM pool.
    pub unified: bool,
    /// A usable discrete or integrated GPU is present.
    pub has_gpu: bool,
}

/// VRAM summed over the discrete GPUs that report some, and whether any GPU
/// (integrated ones included) is usable, over the first `k` GPUs.
pub open spec fn vram_sum(gpus: Seq<Gpu>, k: int) -> (int, bool)
    decreases k,
{
    if k <= 0 {
        (0, false)
    } else {
        let (sum, any) = vram_sum(gpus, k - 1);
        let g = gpus[k - 1];
        if g.is_integrated {
            (sum, true)
        } else {
            match g.vram_total_mb {
                Some(v) => if v > 0 { (sum + v, true) } else { (sum, any) },
                None => (sum, any),
            }
        }
    }
}

/// RAM capacity: the total, or what is available when the total is unset.
pub open spec fn ram_of(m: Memory) -> u64 {
    if m.total_mb > 0 { m.total_mb } else { m.available_mb }
}

impl MachineMemory {
    /// On Apple Silicon the GPU addresses the RAM pool; elsewhere VRAM is
    /// summed over discrete GPUs (an integrated GPU shares RAM, so it only
    /// counts as present).
    pub fn from_profile(apple: &Option<AppleSilicon>, memory: &Memory, gpus: &Vec<Gpu>) -> (r: MachineMemory)
        requires
            vram_sum(gpus@, gpus@.len() as int).0 <= u64::MAX,
        ensures
            r.ram_mb == ram_of(*memory),
            (apple matches Some(a) && a.unified_memory) ==> r == (MachineMemory { gpu_mb: ram_of(*memory), ram_mb: ram_of(*memory), unified: true, has_gpu: true }),
            !(apple matches Some(a) && a.unified_memory) ==> !r.unified
                && r.gpu_mb == vram_sum(gpus@, gpus@.len() as int).0
                && r.has_gpu == vram_sum(gpus@, gpus@.len() as int).1,
    {
        let unified = match apple {
            Some(a) => a.unified_memory,
            None => false,
        };
        let ram_mb = if memory.total_mb > 0 { memory.total_mb } else { memory.available_mb };
        if unified {
            return MachineMemory { gpu_mb: ram_mb, ram_mb, unified: true, has_gpu: true };
        }
        let mut gpu_mb: u64 = 0;
        let mut has_gpu = false;
        let mut i: usize = 0;
        while i < gpus.len()
            invariant
                i <= gpus@.len(),
                vram_sum(gpus@, gpus@.len() as int).0 <= u64::MAX,
                (gpu_mb as int, has_gpu) == vram_sum(gpus@, i as int),
            decreases gpus@.len() - i,
        {
            proof {
                lemma_vram_mono(gpus@, i + 1, gpus@.len() as int);
            }
            let g = &gpus[i];
            if g.is_integrated {
                has_gpu = true;
            } else {
                match g.vram_total_mb {
                    Some(v) => {
                        if v > 0 {
                            gpu_mb = gpu_mb + v;
                            has_gpu = true;
                        }
                    }
                    None => {}
                }
            }
            i = i + 1;
        }
        MachineMemory { gpu_mb, ram_mb, unified: false, has_gpu }
    }
}

proof fn lemma_vram_mono(gpus: Seq<Gpu>, j: int, k: int)
    requires
        0 <= j <= k,
    ensures
        vram_sum(gpus, j).0 <= vram_sum(gpus, k).0,
        vram_sum(gpus, j).0 >= 0,
    decreases k - j,
{
    if j < k {
        lemma_vram_mono(gpus, j, k - 1);
    } else {
        lemma_vram_nonneg(gpus, j);
    }
}

proof fn lemma_vram_nonneg(gpus: Seq<Gpu>, k: int)
    ensures
        vram_sum(gpus, k).0 >= 0,
    decreases k,
{
    if k > 0 {
        lemma_vram_nonneg(gpus, k - 1);
    }
}

/// How a model of `required_mb` fits: on the GPU alone, in RAM, or split
/// (offloaded) between a GPU that is too small and RAM.
#[derive(Debug, Clone, Copy, PartialEq, Eq, Structural)]
pub struct Fit {
    pub required_mb: u64,
    pub gpu_available_mb: u64,
    pub ram_available_mb: u64,
    pub fits_gpu: bool,
    pub fits_ram: bool,
    pub offload: bool,
}

pub open spec fn fit_of(required_mb: u64, mem: MachineMemory) -> Fit {
    let fits_gpu = mem.gpu_mb > 0 && required_mb <= mem.gpu_mb;
    let fits_ram = mem.ram_mb > 0 && required_mb <= mem.ram_mb;
    Fit {
        required_mb,
        gpu_available_mb: mem.gpu_mb,
        ram_available_mb: mem.ram_mb,
        fits_gpu,
        fits_ram,
        offload: mem.has_gpu && !fits_gpu && fits_ram && mem.gpu_mb > 0,
    }
}

pub fn compute_fit(required_mb: u64, mem: &MachineMemory) -> (r: Fit)
    ensures
        r == fit_of(required_mb, *mem),
        r.fits_gpu ==> 0 < mem.gpu_mb && required_mb <= mem.gpu_mb,
        r.fits_ram ==> 0 < mem.ram_mb && required_mb <= mem.ram_mb,
        r.offload ==> mem.has_gpu && 0 < mem.gpu_mb < required_mb && required_mb <= mem.ram_mb,
        mem.gpu_mb == 0 ==> !r.offload && !r.fits_gpu,
{
    let fits_gpu = mem.gpu_mb > 0 && required_mb <= mem.gpu_mb;
    let fits_ram = mem.ram_mb > 0 && required_mb <= mem.ram_mb;
    Fit {
        required_mb,
        gpu_available_mb: mem.gpu_mb,
        ram_available_mb: mem.ram_mb,
        fits_gpu,
        fits_ram,
        offload: mem.has_gpu && !fits_gpu && fits_ram && mem.gpu_mb > 0,
    }
}

/// Which memory a fitted model executes from.
#[derive(Debug, Clone, Copy, PartialEq, Eq, Structural)]
pub enum ExecPath {
    Gpu,
    Offload,
    Cpu,
}

pub open spec fn path_of(fit: Fit, mem: MachineMemory) -> ExecPath {
    if fit.fits_gpu {
        ExecPath::Gpu
    } else if mem.has_gpu && fit.offload {
        ExecPath::Offload
    } else {
        ExecPath::Cpu
    }
}

pub fn exec_path(fit: &Fit, mem: &MachineMemory) -> (r: ExecPath)
    ensures
        r == path_of(*fit, *mem),
        fit.fits_gpu ==> r == ExecPath::Gpu,
        r == ExecPath::Offload ==> mem.has_gpu && fit.offload && !fit.fits_gpu,
        !fit.fits_gpu && !fit.offload ==> r == ExecPath::Cpu,
{
    if fit.fits_gpu {
        ExecPath::Gpu
    } else if mem.has_gpu && fit.offload {
        ExecPath::Offload
    } else {
        ExecPath::Cpu
    }
}

/// What a fit promises about the machine: a model fits the GPU or RAM only
/// when that pool exists and holds it; it is offloaded only onto a GPU that
/// has some memory but too little, with RAM holding the model; so a machine
/// without GPU memory never offloads and runs the model on the CPU unless
/// nothing fits.
pub proof fn lemma_fit_needs_memory(required_mb: u64, mem: MachineMemory)
    ensures
        fit_of(required_mb, mem).fits_gpu ==> 0 < mem.gpu_mb && required_mb <= mem.gpu_mb,
        fit_of(required_mb, mem).fits_ram ==> 0 < mem.ram_mb && required_mb <= mem.ram_mb,
        fit_of(required_mb, mem).offload ==> mem.has_gpu && 0 < mem.gpu_mb < required_mb && required_mb <= mem.ram_mb,
        mem.gpu_mb == 0 ==> !fit_of(required_mb, mem).offload,
        mem.gpu_mb == 0 ==> path_of(fit_of(required_mb, mem), mem) == ExecPath::Cpu,
        path_of(fit_of(required_mb, mem), mem) == ExecPath::Offload ==> 0 < mem.gpu_mb,
        path_of(fit_of(required_mb, mem), mem) == ExecPath::Gpu ==> 0 < mem.gpu_mb && required_mb <= mem.gpu_mb,
{
}

/// The pool a path runs against: VRAM, the larger pool when offloading, or
/// RAM.
pub open spec fn pool_of(path: ExecPath, mem: MachineMemory) -> u64 {
    match path {
        ExecPath::Gpu => mem.gpu_mb,
        ExecPath::Offload => if mem.gpu_mb >= mem.ram_mb { mem.gpu_mb } else { mem.ram_mb },
        ExecPath::Cpu => mem.ram_mb,
    }
}

pub fn exec_pool(path: ExecPath, mem: &MachineMemory) -> (r: u64)
    ensures
        r == pool_of(path, *mem),
{
    match path {
        ExecPath::Gpu => mem.gpu_mb,
        ExecPath::Offload => if mem.gpu_mb >= mem.ram_mb { mem.gpu_mb } else { mem.ram_mb },
        ExecPath::Cpu => mem.ram_mb,
    }
}

/// Memory left over once the model is loaded (never below zero).
pub fn headroom_mb(path: ExecPath, mem: &MachineMemory, required_mb: u64) -> (r: u64)
    ensures
        r == if pool_of(path, *mem) >= required_mb { (pool_of(path, *mem) - required_mb) as u64 } else { 0 },
{
    let pool = exec_pool(path, mem);
    if pool >= required_mb { pool - required_mb } else { 0 }
}

/// Where a path runs, in words.
pub open spec fn where_of(path: ExecPath, unified: bool) -> Seq<char> {
    match path {
        ExecPath::Gpu => if unified { "unified memory"@ } else { "GPU"@ },
        ExecPath::Offload => "GPU + CPU offload"@,
        ExecPath::Cpu => "CPU"@,
    }
}

pub fn where_word(path: ExecPath, unified: bool) -> (r: &'static str)
    ensures
        r@ == where_of(path, unified),
{
    match path {
        ExecPath::Gpu => if unified { "unified memory" } else { "GPU" },
        ExecPath::Offload => "GPU + CPU offload",
        ExecPath::Cpu => "CPU",
    }
}

/// `str::eq_ignore_ascii_case`.
pub open spec fn eq_ci(a: Seq<char>, b: Seq<char>) -> bool {
    lower(a) == lower(b)
}

fn eq_ignore_case(a: &str, b: &str) -> (r: bool)
    ensures
        r == eq_ci(a@, b@),
{
    let la = string_of(&lower_vec(&chars_of(a)));
    let lb = string_of(&lower_vec(&chars_of(b)));
    str_eq(la.as_str(), lb.as_str())
}

/// The index of the quant named `name` (ignoring ASCII case), if any.
pub fn find_quant(names: &Vec<String>, name: &str) -> (r: Option<usize>)
    ensures
        match r {
            Some(i) => i < names@.len() && eq_ci(names@[i as int]@, name@)
                && forall|j: int| 0 <= j < i ==> !eq_ci(#[trigger] names@[j]@, name@),
            None => forall|j: int| 0 <= j < names@.len() ==> !eq_ci(#[trigger] names@[j]@, name@),
        },
{
    let mut i: usize = 0;
    while i < names.len()
        invariant
            i <= names@.len(),
            forall|j: int| 0 <= j < i ==> !eq_ci(#[trigger] names@[j]@, name@),
        decreases names@.len() - i,
    {
        if eq_ignore_case(names[i].as_str(), name) {
            return Some(i);
        }
        i = i + 1;
    }
    None
}

/// The part of an `ollama` pull name before the first `:`.
pub open spec fn repo_of(pull: Seq<char>) -> Seq<char> {
    match crate::text::find(pull, seq![':']) {
        Some(k) => pull.take(k),
        None => pull,
    }
}

/// Does a benchmark run of `target` belong to this model and quant? It
/// matches the model's id or pull name, the quant's tag, any of the model's
/// quant tags (all ignoring ASCII case), or, loosely, starts with the pull
/// name's repository.
pub open spec fn bench_matches(model_id: Seq<char>, pull: Seq<char>, quant_tag: Option<Seq<char>>, tags: Seq<Option<Seq<char>>>, target: Seq<char>) -> bool {
    ||| eq_ci(target, model_id)
    ||| eq_ci(target, pull)
    ||| (quant_tag matches Some(t) && eq_ci(target, t))
    ||| (exists|i: int| 0 <= i < tags.len() && (#[trigger] tags[i] matches Some(t) && eq_ci(t, target)))
    ||| (repo_of(pull).len() > 0 && starts_with(lower(target), lower(repo_of(pull))))
}

pub open spec fn opt_view(o: Option<String>) -> Option<Seq<char>> {
    match o {
        Some(s) => Some(s@),
        None => None,
    }
}

pub fn benchmark_matches(model_id: &str, pull: &str, quant_tag: &Option<String>, tags: &Vec<Option<String>>, target: &str) -> (r: bool)
    ensures
        r == bench_matches(model_id@, pull@, opt_view(*quant_tag), tags@.map_values(|o: Option<String>| opt_view(o)), target@),
{
    let ghost ts = tags@.map_values(|o: Option<String>| opt_view(o));
    if eq_ignore_case(target, model_id) || eq_ignore_case(target, pull) {
        return true;
    }
    match quant_tag {
        Some(t) => {
            if eq_ignore_case(target, t.as_str()) {
                return true;
            }
        }
        None => {}
    }
    let mut i: usize = 0;
    while i < tags.len()
        invariant
            i <= tags@.len(),
            ts == tags@.map_values(|o: Option<String>| opt_view(o)),
            forall|j: int| 0 <= j < i ==> !(#[trigger] ts[j] matches Some(t) && eq_ci(t, target@)),
        decreases tags@.len() - i,
    {
        match &tags[i] {
            Some(t) => {
                if eq_ignore_case(t.as_str(), target) {
                    assert(ts[i as int] == Some(t@));
                    return true;
                }
            }
            None => {}
        }
        i = i + 1;
    }
    let pv = chars_of(pull);
    proof {
        crate::text::lemma_find_from_bounds(pv@, seq![':'], 0);
    }
    let repo_end = match crate::text::find_char(&pv, ':', 0) {
        Some(k) => k,
        None => pv.len(),
    };
    assert(pv@.subrange(0, repo_end as int) =~= repo_of(pull@));
    if repo_end == 0 {
        return false;
    }
    let repo = crate::text::slice_vec(&pv, 0, repo_end);
    let lt = lower_vec(&chars_of(target));
    let lr = lower_vec(&repo);
    crate::text::matches_at(&lt, &lr, 0)
}

/// The quant a model is rated at.
#[derive(Debug, Clone, Copy, PartialEq, Eq, Structural)]
pub enum QuantPick {
    Q8,
    Q4,
    /// Nothing fits: the smallest quant, so the memory figures still mean something.
    Smallest,
}

/// The larger of the two pools: the best case for fitting.
pub open spec fn best_pool(mem: MachineMemory) -> u64 {
    if mem.gpu_mb >= mem.ram_mb { mem.gpu_mb } else { mem.ram_mb }
}

/// Prefers Q8_0, then Q4_K_M, each only when its footprint (weights plus
/// headroom) fits the larger pool; otherwise the smallest quant.
pub fn pick_quant(q8_footprint: Option<u64>, q4_footprint: Option<u64>, mem: &MachineMemory) -> (r: QuantPick)
    ensures
        r == (if q8_footprint matches Some(f) && f <= best_pool(*mem) {
            QuantPick::Q8
        } else if q4_footprint matches Some(f) && f <= best_pool(*mem) {
            QuantPick::Q4
        } else {
            QuantPick::Smallest
        }),
{
    let pool = if mem.gpu_mb >= mem.ram_mb { mem.gpu_mb } else { mem.ram_mb };
    match q8_footprint {
        Some(f) => {
            if f <= pool {
                return QuantPick::Q8;
            }
        }
        None => {}
    }
    match q4_footprint {
        Some(f) => {
            if f <= pool {
                return QuantPick::Q4;
            }
        }
        None => {}
    }
    QuantPick::Smallest
}

/// `i` is the first index of a smallest size in `sizes`.
pub open spec fn is_first_min(sizes: Seq<u64>, i: int) -> bool {
    &&& 0 <= i < sizes.len()
    &&& forall|j: int| 0 <= j < sizes.len() ==> sizes[i] <= #[trigger] sizes[j]
    &&& forall|j: int| 0 <= j < i ==> sizes[i] < #[trigger] sizes[j]
}

/// The first quant of smallest size; `None` only for no quants.
pub fn smallest_quant(sizes: &Vec<u64>) -> (r: Option<usize>)
    ensures
        r is None <==> sizes@.len() == 0,
        r matches Some(i) ==> is_first_min(sizes@, i as int),
{
    if sizes.len() == 0 {
        return None;
    }
    let mut best: usize = 0;
    let mut i: usize = 1;
    while i < sizes.len()
        invariant
            1 <= i <= sizes@.len(),
            best < i,
            forall|j: int| 0 <= j < i ==> sizes@[best as int] <= #[trigger] sizes@[j],
            forall|j: int| 0 <= j < best ==> sizes@[best as int] < #[trigger] sizes@[j],
        decreases sizes@.len() - i,
    {
        if sizes[i] < sizes[best] {
            best = i;
        }
        i = i + 1;
    }
    Some(best)
}

/// The quant a model is rated at, given the indexes of its Q8_0 and Q4_K_M
/// quants and each quant's footprint (weights plus headroom): Q8_0, then
/// Q4_K_M, each only when its footprint fits the larger pool; otherwise the
/// first quant of smallest size. The footprint it is rated with is
/// `footprints[r]`.
pub fn choose_quant(q8: Option<usize>, q4: Option<usize>, sizes: &Vec<u64>, footprints: &Vec<u64>, mem: &MachineMemory) -> (r: usize)
    requires
        sizes@.len() > 0,
        footprints@.len() == sizes@.len(),
        q8 matches Some(i) ==> i < sizes@.len(),
        q4 matches Some(i) ==> i < sizes@.len(),
    ensures
        r < sizes@.len(),
        ({
            let q8_fits = q8 matches Some(i) && footprints@[i as int] <= best_pool(*mem);
            let q4_fits = q4 matches Some(i) && footprints@[i as int] <= best_pool(*mem);
            if q8_fits {
                q8 == Some(r)
            } else if q4_fits {
                q4 == Some(r)
            } else {
                is_first_min(sizes@, r as int)
            }
        }),
{
    let f8 = match q8 {
        Some(i) => Some(footprints[i]),
        None => None,
    };
    let f4 = match q4 {
        Some(i) => Some(footprints[i]),
        None => None,
    };
    let pick = pick_quant(f8, f4, mem);
    match pick {
        QuantPick::Q8 => match q8 {
            Some(i) => i,
            None => 0,
        },
        QuantPick::Q4 => match q4 {
            Some(i) => i,
            None => 0,
        },
        QuantPick::Smallest => match smallest_quant(sizes) {
            Some(i) => i,
            None => 0,
        },
    }
}

/// Memory headroom above `num/den` of the pool: `(pool - required) / pool`
/// past the fraction (no headroom when the model fills the pool).
pub open spec fn headroom_over(pool: nat, required: nat, num: nat, den: nat) -> bool {
    pool > 0 && required < pool && den * (pool - required) > num * pool
}

/// The context length that runs comfortably: the full maximum with over
/// 20% headroom, the default with over 5%, else the default capped at 4096;
/// a model that does not run gets the default capped at 2048. (The fractions
/// are compared exactly; the `f64` comparison they stand for agrees for
/// every pool under 2^50 MB.)
pub fn context_comfortable(fits: bool, exec_pool: u64, required_mb: u64, context_default: u32, context_max: u32) -> (r: u32)
    ensures
        r == (if !fits {
            if context_default <= 2048 { context_default } else { 2048 }
        } else if headroom_over(exec_pool as nat, required_mb as nat, 1, 5) {
            context_max
        } else if headroom_over(exec_pool as nat, required_mb as nat, 1, 20) {
            context_default
        } else if context_default <= 4096 {
            context_default
        } else {
            4096
        }),
{
    if !fits {
        return if context_default <= 2048 { context_default } else { 2048 };
    }
    if exec_pool > 0 && required_mb < exec_pool {
        let spare = (exec_pool - required_mb) as u128;
        if 5 * spare > exec_pool as u128 {
            return context_max;
        }
        if 20 * spare > exec_pool as u128 {
            return context_default;
        }
    }
    if context_default <= 4096 { context_default } else { 4096 }
}

/// A benchmark run as the rating reads it.
pub struct BenchRow {
    /// The model name the run was made with.
    pub model: String,
    pub ok: bool,
    /// The run measured a generation speed.
    pub has_gen: bool,
    /// ISO-8601, so later runs sort later.
    pub timestamp: String,
}

/// A run that counts for this model: it succeeded, measured a speed and
/// belongs to the model or quant.
pub open spec fn counts(b: BenchRow, model_id: Seq<char>, pull: Seq<char>, quant_tag: Option<Seq<char>>, tags: Seq<Option<Seq<char>>>) -> bool {
    b.ok && b.has_gen && bench_matches(model_id, pull, quant_tag, tags, b.model@)
}

/// The most recent run that counts (the last of equally recent ones), if any.
pub fn best_benchmark(
    model_id: &str,
    pull: &str,
    quant_tag: &Option<String>,
    tags: &Vec<Option<String>>,
    runs: &Vec<BenchRow>,
) -> (r: Option<usize>)
    ensures
        ({
            let ts = tags@.map_values(|o: Option<String>| opt_view(o));
            let qt = opt_view(*quant_tag);
            match r {
                Some(i) => {
                    &&& i < runs@.len()
                    &&& counts(runs@[i as int], model_id@, pull@, qt, ts)
                    &&& forall|j: int| 0 <= j < runs@.len() && counts(#[trigger] runs@[j], model_id@, pull@, qt, ts)
                        ==> !lex_lt(runs@[i as int].timestamp@, runs@[j].timestamp@)
                    &&& forall|j: int| i < j < runs@.len() && counts(#[trigger] runs@[j], model_id@, pull@, qt, ts)
                        ==> lex_lt(runs@[j].timestamp@, runs@[i as int].timestamp@)
                },
                None => forall|j: int| 0 <= j < runs@.len() ==> !counts(#[trigger] runs@[j], model_id@, pull@, qt, ts),
            }
        }),
{
    let ghost ts = tags@.map_values(|o: Option<String>| opt_view(o));
    let ghost qt = opt_view(*quant_tag);
    let mut best: Option<usize> = None;
    let mut i: usize = 0;
    while i < runs.len()
        invariant
            i <= runs@.len(),
            ts == tags@.map_values(|o: Option<String>| opt_view(o)),
            qt == opt_view(*quant_tag),
            match best {
                Some(b) => {
                    &&& b < i
                    &&& counts(runs@[b as int], model_id@, pull@, qt, ts)
                    &&& forall|j: int| 0 <= j < i && counts(#[trigger] runs@[j], model_id@, pull@, qt, ts)
                        ==> !lex_lt(runs@[b as int].timestamp@, runs@[j].timestamp@)
                    &&& forall|j: int| b < j < i && counts(#[trigger] runs@[j], model_id@, pull@, qt, ts)
                        ==> lex_lt(runs@[j].timestamp@, runs@[b as int].timestamp@)
                },
                None => forall|j: int| 0 <= j < i ==> !counts(#[trigger] runs@[j], model_id@, pull@, qt, ts),
            },
        decreases runs@.len() - i,
    {
        let row = &runs[i];
        if row.ok && row.has_gen && benchmark_matches(model_id, pull, quant_tag, tags, row.model.as_str()) {
            assert(counts(runs@[i as int], model_id@, pull@, qt, ts));
            match best {
                None => {
                    proof {
                        lemma_lex_total(runs@[i as int].timestamp@, runs@[i as int].timestamp@);
                    }
                    best = Some(i);
                }
                Some(b) => {
                    let newer = !lex_less(row.timestamp.as_str(), runs[b].timestamp.as_str());
                    if newer {
                        proof {
                            let tb = runs@[b as int].timestamp@;
                            let ti = runs@[i as int].timestamp@;
                            lemma_lex_total(ti, tb);
                            assert forall|j: int| 0 <= j <= i && counts(#[trigger] runs@[j], model_id@, pull@, qt, ts)
                                implies !lex_lt(ti, runs@[j].timestamp@) by {
                                let tj = runs@[j].timestamp@;
                                lemma_lex_total(tj, ti);
                                lemma_lex_total(ti, tj);
                                if j < i && lex_lt(ti, tj) {
                                    if lex_lt(tb, ti) {
                                        lemma_lex_trans(tb, ti, tj);
                                    } else {
                                        assert(ti == tb);
                                    }
                                }
                            }
                        }
                        best = Some(i);
                    } else {
                        proof {
                            let tb = runs@[b as int].timestamp@;
                            let ti = runs@[i as int].timestamp@;
                            lemma_lex_total(ti, tb);
                        }
                    }
                }
            }
        }
        i = i + 1;
    }
    best
}

/// A speed given in tenths of a token per second, as `f64` display writes
/// the rounded value: `7.5`, or `12` when the tenths are zero.
pub open spec fn tenths_text(t: nat) -> Seq<char> {
    if t % 10 == 0 {
        decimal(t / 10)
    } else {
        decimal(t / 10) + seq!['.'] + decimal(t % 10)
    }
}

/// A size in MB as `fmt_mb` writes it.
pub open spec fn mb_text(mb: nat) -> Seq<char> {
    if mb >= 1024 { gb_tenths(mb) + "GB"@ } else { decimal(mb) + "MB"@ }
}

/// How fast it runs: `measured 7.5 tok/s` or `~45.2 tok/s`.
pub open spec fn speed_text(measured: bool, speed_tenths: nat) -> Seq<char> {
    if measured {
        "measured "@ + tenths_text(speed_tenths) + " tok/s"@
    } else {
        "~"@ + tenths_text(speed_tenths) + " tok/s"@
    }
}

pub open spec fn wont_run_text(required: nat, pool: nat) -> Seq<char> {
    "Won't run: needs ~"@ + mb_text(required) + " but only "@ + mb_text(pool) + " available even at the smallest quant."@
}

/// What is left of the pool once the model is loaded.
pub open spec fn spare_of(path: ExecPath, mem: MachineMemory, required: u64) -> nat {
    let pool = pool_of(path, mem);
    if pool >= required { (pool - required) as nat } else { 0 }
}

pub open spec fn runs_text(
    tier: Tier,
    measured: bool,
    speed_tenths: nat,
    path: ExecPath,
    fit: Fit,
    context: nat,
    quant: Seq<char>,
    mem: MachineMemory,
) -> Seq<char> {
    tier.label_of() + ": "@ + speed_text(measured, speed_tenths) + " on "@ + where_of(path, mem.unified) + " ("@ + quant
        + "), "@ + mb_text(spare_of(path, mem, fit.required_mb)) + " headroom, "@ + ctx_text(context)
        + " context comfortable."@
}

/// The one-line explanation of a rating. `speed_tenths` is the speed
/// rounded to tenths and `layers_pct` the share of layers on the GPU,
/// rounded to a whole percent (both computed in floating point by the
/// caller).
pub open spec fn why_of(
    tier: Tier,
    measured: bool,
    speed_tenths: nat,
    path: ExecPath,
    fit: Fit,
    context: nat,
    quant: Seq<char>,
    mem: MachineMemory,
    layers_pct: nat,
) -> Seq<char> {
    if tier is WontRun {
        wont_run_text(fit.required_mb as nat, best_pool(mem) as nat)
    } else if path is Offload {
        runs_text(tier, measured, speed_tenths, path, fit, context, quant, mem) + " ~"@ + decimal(layers_pct)
            + "% of layers on GPU."@
    } else {
        runs_text(tier, measured, speed_tenths, path, fit, context, quant, mem)
    }
}

fn push_mb(out: &mut String, mb: u64)
    requires
        mb < 0x20_0000_0000_0000,
    ensures
        final(out)@ == old(out)@ + mb_text(mb as nat),
{
    let s = fmt_mb(mb);
    push_str(out, s.as_str());
}

fn push_tenths(out: &mut String, t: u64)
    ensures
        final(out)@ == old(out)@ + tenths_text(t as nat),
{
    push_decimal(out, (t / 10) as u128);
    if t % 10 != 0 {
        crate::text::push_char(out, '.');
        push_decimal(out, (t % 10) as u128);
    }
}

fn speed_string(measured: bool, t: u64) -> (r: String)
    ensures
        r@ == speed_text(measured, t as nat),
{
    let mut s = String::new();
    if measured {
        push_str(&mut s, "measured ");
    } else {
        push_str(&mut s, "~");
    }
    push_tenths(&mut s, t);
    push_str(&mut s, " tok/s");
    s
}

fn wont_run_string(required: u64, pool: u64) -> (r: String)
    requires
        required < 0x20_0000_0000_0000,
        pool < 0x20_0000_0000_0000,
    ensures
        r@ == wont_run_text(required as nat, pool as nat),
{
    let mut s = String::new();
    push_str(&mut s, "Won't run: needs ~");
    push_mb(&mut s, required);
    push_str(&mut s, " but only ");
    push_mb(&mut s, pool);
    push_str(&mut s, " available even at the smallest quant.");
    s
}

fn runs_string(
    tier: Tier,
    measured: bool,
    speed_tenths: u64,
    path: ExecPath,
    fit: &Fit,
    context: u32,
    quant: &str,
    mem: &MachineMemory,
) -> (r: String)
    requires
        mem.gpu_mb < 0x20_0000_0000_0000,
        mem.ram_mb < 0x20_0000_0000_0000,
    ensures
        r@ == runs_text(tier, measured, speed_tenths as nat, path, *fit, context as nat, quant@, *mem),
{
    let spare = headroom_mb(path, mem, fit.required_mb);
    let speed = speed_string(measured, speed_tenths);
    let c = fmt_ctx(context);
    let mut s = String::new();
    push_str(&mut s, tier.label());
    push_str(&mut s, ": ");
    push_str(&mut s, speed.as_str());
    push_str(&mut s, " on ");
    push_str(&mut s, where_word(path, mem.unified));
    push_str(&mut s, " (");
    push_str(&mut s, quant);
    push_str(&mut s, "), ");
    push_mb(&mut s, spare);
    push_str(&mut s, " headroom, ");
    push_str(&mut s, c.as_str());
    push_str(&mut s, " context comfortable.");
    s
}

pub fn build_why(
    tier: Tier,
    measured: bool,
    speed_tenths: u64,
    path: ExecPath,
    fit: &Fit,
    context: u32,
    quant: &str,
    mem: &MachineMemory,
    layers_pct: u64,
) -> (r: String)
    requires
        fit.required_mb < 0x20_0000_0000_0000,
        mem.gpu_mb < 0x20_0000_0000_0000,
        mem.ram_mb < 0x20_0000_0000_0000,
    ensures
        r@ == why_of(tier, measured, speed_tenths as nat, path, *fit, context as nat, quant@, *mem, layers_pct as nat),
{
    if let Tier::WontRun = tier {
        let pool = if mem.gpu_mb >= mem.ram_mb { mem.gpu_mb } else { mem.ram_mb };
        return wont_run_string(fit.required_mb, pool);
    }
    let mut s = runs_string(tier, measured, speed_tenths, path, fit, context, quant, mem);
    if let ExecPath::Offload = path {
        push_str(&mut s, " ~");
        push_decimal(&mut s, layers_pct as u128);
        push_str(&mut s, "% of layers on GPU.");
    }
    s
}

} // verus!
