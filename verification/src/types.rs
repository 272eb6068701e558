//! Shared data types: the hardware profile pieces, the five-tier rating, and
//! the permission modes and effort levels shared by the terminal and desktop
//! front ends.

use vstd::prelude::*;
use crate::text::{chars_of, is_ws, is_whitespace, slice_vec, trim, trim_bounds, vec_is};

verus! {

// ── Hardware profile pieces ────────────────────────────────────────────────

/// Instruction-set features that matter for LLM inference throughput.
#[derive(Debug, Clone, Copy, PartialEq, Eq, Structural)]
pub struct CpuFlags {
    pub avx2: bool,
    pub avx512: bool,
    pub fma: bool,
    pub f16c: bool,
    /// ARM NEON (Apple Silicon / ARM servers).
    pub neon: bool,
}

impl Default for CpuFlags {
    fn default() -> (r: CpuFlags)
        ensures
            !r.avx2 && !r.avx512 && !r.fma && !r.f16c && !r.neon,
    {
        CpuFlags { avx2: false, avx512: false, fma: false, f16c: false, neon: false }
    }
}

#[derive(Debug, Clone)]
pub struct Gpu {
    pub vendor: String,
    pub model: String,
    pub vram_total_mb: Option<u64>,
    pub vram_free_mb: Option<u64>,
    pub driver_version: Option<String>,
    pub cuda_version: Option<String>,
    pub compute_capability: Option<String>,
    /// Best inference backend for this GPU: "cuda", "rocm", "metal", "vulkan".
    pub backend: String,
    /// True for iGPUs / integrated graphics that share system RAM.
    pub is_integrated: bool,
}

#[derive(Debug, Clone)]
pub struct AppleSilicon {
    /// Apple Silicon uses unified memory shared between CPU and GPU.
    pub unified_memory: bool,
    pub gpu_cores: Option<u32>,
    pub neural_engine: bool,
    pub chip: String,
}

#[derive(Debug, Clone, Copy, PartialEq, Eq, Structural)]
pub struct Memory {
    pub total_mb: u64,
    pub available_mb: u64,
}

#[derive(Debug, Clone)]
pub struct Os {
    pub name: String,
    pub version: String,
    pub arch: String,
}

// ── Ratings ────────────────────────────────────────────────────────────────

/// The 5-tier rating for a model on this machine.
#[derive(Debug, Clone, Copy, PartialEq, Eq, Structural)]
pub enum Tier {
    /// Not enough VRAM/RAM even at the smallest quant.
    WontRun,
    /// Works, but under the usable-speed threshold or heavy swapping.
    Slow,
    /// Usable interactive speed.
    Okay,
    /// Comfortable headroom, fast.
    Great,
    /// Best-in-class for this machine.
    Blazing,
}

impl Tier {
    pub open spec fn label_of(self) -> Seq<char> {
        match self {
            Tier::WontRun => "Won't run"@,
            Tier::Slow => "Runs, but slow"@,
            Tier::Okay => "Runs okay"@,
            Tier::Great => "Runs great"@,
            Tier::Blazing => "Blazing"@,
        }
    }

    pub open spec fn rank_of(self) -> u8 {
        match self {
            Tier::WontRun => 0,
            Tier::Slow => 1,
            Tier::Okay => 2,
            Tier::Great => 3,
            Tier::Blazing => 4,
        }
    }

    pub fn label(&self) -> (r: &'static str)
        ensures
            r@ == self.label_of(),
    {
        match self {
            Tier::WontRun => "Won't run",
            Tier::Slow => "Runs, but slow",
            Tier::Okay => "Runs okay",
            Tier::Great => "Runs great",
            Tier::Blazing => "Blazing",
        }
    }

    /// Ordering rank for sorting (higher is better).
    pub fn rank(&self) -> (r: u8)
        ensures
            r == self.rank_of(),
    {
        match self {
            Tier::WontRun => 0,
            Tier::Slow => 1,
            Tier::Okay => 2,
            Tier::Great => 3,
            Tier::Blazing => 4,
        }
    }
}

/// The rank tells the tiers apart and orders them from "won't run" (0) to
/// "blazing" (4): every rank below 5 belongs to exactly one tier.
pub proof fn lemma_tier_rank_is_a_bijection(a: Tier, b: Tier)
    ensures
        a.rank_of() < 5,
        a.rank_of() == b.rank_of() ==> a == b,
        Tier::WontRun.rank_of() < Tier::Slow.rank_of() < Tier::Okay.rank_of()
            < Tier::Great.rank_of() < Tier::Blazing.rank_of(),
{
}

#[derive(Debug, Clone, Copy, PartialEq, Eq, Structural)]
pub enum RatingSource {
    /// Spec heuristic (provisional, shown instantly).
    Heuristic,
    /// Backed by a real on-device benchmark.
    Measured,
}

// ── Permission modes ───────────────────────────────────────────────────────

/// Agent permission mode. Controls whether the agent asks before
/// editing files or running shell commands.
#[derive(Debug, Clone, Copy, PartialEq, Eq, Structural)]
pub enum PermMode {
    /// Ask before every destructive tool call.
    Manual,
    /// Auto-approve file edits + common filesystem commands.
    AcceptEdits,
    /// Reads only — all mutating tools are denied before they run.
    Plan,
    /// Everything auto-approved with safety checks.
    Auto,
    /// Everything auto-approved, no checks. For isolated containers.
    Bypass,
}

/// Commands that accept-edits mode runs without asking.
pub open spec fn is_safe_cmd_name(w: Seq<char>) -> bool {
    ||| w == "ls"@ ||| w == "cat"@ ||| w == "head"@ ||| w == "tail"@ ||| w == "wc"@
    ||| w == "grep"@ ||| w == "find"@ ||| w == "which"@ ||| w == "echo"@
    ||| w == "pwd"@ ||| w == "whoami"@ ||| w == "date"@ ||| w == "uname"@ ||| w == "env"@
    ||| w == "printenv"@ ||| w == "df"@ ||| w == "du"@ ||| w == "free"@
    ||| w == "uptime"@ ||| w == "ps"@ ||| w == "pgrep"@ ||| w == "top"@ ||| w == "mkdir"@
    ||| w == "touch"@ ||| w == "mv"@ ||| w == "cp"@ ||| w == "ln"@
    ||| w == "chmod"@ ||| w == "chown"@ ||| w == "git"@ ||| w == "cargo"@ ||| w == "npm"@
    ||| w == "pip"@ ||| w == "python"@ ||| w == "python3"@ ||| w == "node"@
}

/// Length of the leading run of non-whitespace characters.
pub open spec fn word_len(s: Seq<char>) -> nat
    decreases s.len(),
{
    if s.len() == 0 || is_ws(s[0]) {
        0
    } else {
        1 + word_len(s.drop_first())
    }
}

/// The first whitespace-separated word of `s` (for a string with no leading
/// whitespace, what `split_whitespace().next()` yields).
pub open spec fn first_word(s: Seq<char>) -> Seq<char> {
    s.take(word_len(s) as int)
}

impl PermMode {
    pub const ALL: [PermMode; 5] = [
        PermMode::Manual,
        PermMode::AcceptEdits,
        PermMode::Plan,
        PermMode::Auto,
        PermMode::Bypass,
    ];

    pub open spec fn label_of(self) -> Seq<char> {
        match self {
            PermMode::Manual => "manual"@,
            PermMode::AcceptEdits => "accept-edits"@,
            PermMode::Plan => "plan"@,
            PermMode::Auto => "auto"@,
            PermMode::Bypass => "bypass"@,
        }
    }

    pub open spec fn badge_of(self) -> Seq<char> {
        match self {
            PermMode::Manual => "⏸ manual"@,
            PermMode::AcceptEdits => "✎ accept-edits"@,
            PermMode::Plan => "◎ plan"@,
            PermMode::Auto => "▶ auto"@,
            PermMode::Bypass => "⚠ bypass"@,
        }
    }

    pub open spec fn explain_of(self) -> Seq<char> {
        match self {
            PermMode::Manual => "asks before shell, file writes, and process"@,
            PermMode::AcceptEdits => "auto-approves file edits + mkdir/touch/mv/cp"@,
            PermMode::Plan => "read-only — model can read but not write or run commands"@,
            PermMode::Auto => "everything auto-approved"@,
            PermMode::Bypass => "all tools allowed, no prompts"@,
        }
    }

    /// The mode a label names, if any (aliases included).
    pub open spec fn parse_label(s: Seq<char>) -> Option<PermMode> {
        if s == "manual"@ || s == "default"@ {
            Some(PermMode::Manual)
        } else if s == "accept-edits"@ || s == "acceptedits"@ {
            Some(PermMode::AcceptEdits)
        } else if s == "plan"@ {
            Some(PermMode::Plan)
        } else if s == "auto"@ {
            Some(PermMode::Auto)
        } else if s == "bypass"@ || s == "bypassPermissions"@ {
            Some(PermMode::Bypass)
        } else {
            None
        }
    }

    /// Position in the Shift+Tab cycle.
    pub open spec fn index_of(self) -> int {
        match self {
            PermMode::Manual => 0,
            PermMode::AcceptEdits => 1,
            PermMode::Plan => 2,
            PermMode::Auto => 3,
            PermMode::Bypass => 4,
        }
    }

    pub open spec fn next_of(self) -> PermMode {
        match self {
            PermMode::Manual => PermMode::AcceptEdits,
            PermMode::AcceptEdits => PermMode::Plan,
            PermMode::Plan => PermMode::Auto,
            PermMode::Auto => PermMode::Bypass,
            PermMode::Bypass => PermMode::Manual,
        }
    }

    pub fn label(&self) -> (r: &'static str)
        ensures
            r@ == self.label_of(),
    {
        match self {
            PermMode::Manual => "manual",
            PermMode::AcceptEdits => "accept-edits",
            PermMode::Plan => "plan",
            PermMode::Auto => "auto",
            PermMode::Bypass => "bypass",
        }
    }

    pub fn badge(&self) -> (r: &'static str)
        ensures
            r@ == self.badge_of(),
    {
        match self {
            PermMode::Manual => "⏸ manual",
            PermMode::AcceptEdits => "✎ accept-edits",
            PermMode::Plan => "◎ plan",
            PermMode::Auto => "▶ auto",
            PermMode::Bypass => "⚠ bypass",
        }
    }

    pub fn from_label(s: &str) -> (r: Option<PermMode>)
        ensures
            r == PermMode::parse_label(s@),
    {
        let v = chars_of(s);
        if vec_is(&v, "manual") || vec_is(&v, "default") {
            Some(PermMode::Manual)
        } else if vec_is(&v, "accept-edits") || vec_is(&v, "acceptedits") {
            Some(PermMode::AcceptEdits)
        } else if vec_is(&v, "plan") {
            Some(PermMode::Plan)
        } else if vec_is(&v, "auto") {
            Some(PermMode::Auto)
        } else if vec_is(&v, "bypass") || vec_is(&v, "bypassPermissions") {
            Some(PermMode::Bypass)
        } else {
            None
        }
    }

    /// Next mode in the Shift+Tab cycle.
    pub fn next(&self) -> (r: PermMode)
        ensures
            r == self.next_of(),
            r.index_of() == (self.index_of() + 1) % 5,
    {
        match self {
            PermMode::Manual => PermMode::AcceptEdits,
            PermMode::AcceptEdits => PermMode::Plan,
            PermMode::Plan => PermMode::Auto,
            PermMode::Auto => PermMode::Bypass,
            PermMode::Bypass => PermMode::Manual,
        }
    }

    /// One-line explanation for UI display.
    pub fn explain(&self) -> (r: &'static str)
        ensures
            r@ == self.explain_of(),
    {
        match self {
            PermMode::Manual => "asks before shell, file writes, and process",
            PermMode::AcceptEdits => "auto-approves file edits + mkdir/touch/mv/cp",
            PermMode::Plan => "read-only — model can read but not write or run commands",
            PermMode::Auto => "everything auto-approved",
            PermMode::Bypass => "all tools allowed, no prompts",
        }
    }

    /// In AcceptEdits mode, is this shell command safe to auto-approve? It is
    /// when the first word of the trimmed command is one of the listed
    /// read-only or file-management programs.
    pub fn is_safe_cmd(cmd: &str) -> (r: bool)
        ensures
            r == (trim(cmd@).len() > 0 && is_safe_cmd_name(first_word(trim(cmd@)))),
    {
        let v = chars_of(cmd);
        let (a, b) = trim_bounds(&v, 0, v.len());
        proof { assert(v@.subrange(0, v@.len() as int) =~= v@); }
        if a == b {
            return false;
        }
        let e = word_end(&v, a, b);
        let w = slice_vec(&v, a, e);
        proof {
            let t = v@.subrange(a as int, b as int);
            assert(t.take(word_len(t) as int) =~= w@);
        }
        vec_is(&w, "ls") || vec_is(&w, "cat") || vec_is(&w, "head") || vec_is(&w, "tail")
            || vec_is(&w, "wc") || vec_is(&w, "grep") || vec_is(&w, "find") || vec_is(&w, "which")
            || vec_is(&w, "echo") || vec_is(&w, "pwd") || vec_is(&w, "whoami") || vec_is(&w, "date")
            || vec_is(&w, "uname") || vec_is(&w, "env") || vec_is(&w, "printenv") || vec_is(&w, "df")
            || vec_is(&w, "du") || vec_is(&w, "free") || vec_is(&w, "uptime") || vec_is(&w, "ps")
            || vec_is(&w, "pgrep") || vec_is(&w, "top") || vec_is(&w, "mkdir") || vec_is(&w, "touch")
            || vec_is(&w, "mv") || vec_is(&w, "cp") || vec_is(&w, "ln") || vec_is(&w, "chmod")
            || vec_is(&w, "chown") || vec_is(&w, "git") || vec_is(&w, "cargo") || vec_is(&w, "npm")
            || vec_is(&w, "pip") || vec_is(&w, "python") || vec_is(&w, "python3") || vec_is(&w, "node")
    }
}

/// End of the first word of `v[lo..hi]`.
pub fn word_end(v: &Vec<char>, lo: usize, hi: usize) -> (r: usize)
    requires
        lo <= hi <= v@.len(),
    ensures
        lo <= r <= hi,
        r - lo == word_len(v@.subrange(lo as int, hi as int)),
{
    let mut i = lo;
    while i < hi && !is_whitespace(v[i])
        invariant
            lo <= i <= hi <= v@.len(),
            word_len(v@.subrange(lo as int, hi as int)) == (i - lo) + word_len(v@.subrange(i as int, hi as int)),
        decreases hi - i,
    {
        assert(v@.subrange(i as int, hi as int).drop_first() =~= v@.subrange(i + 1, hi as int));
        i = i + 1;
    }
    i
}

/// Leaving the five modes by `next` five times comes back to where you
/// started, and no two modes step to the same mode: the Shift+Tab cycle
/// visits every mode once per lap.
pub proof fn lemma_perm_cycle(m: PermMode, n: PermMode)
    ensures
        m.next_of().next_of().next_of().next_of().next_of() == m,
        m.next_of() == n.next_of() ==> m == n,
        m.next_of() != m,
{
}

/// Each mode's label parses back to that mode.
pub proof fn lemma_perm_label_round_trip(m: PermMode)
    ensures
        PermMode::parse_label(m.label_of()) == Some(m),
{
    reveal_strlit("manual");
    assert("manual"@.len() == 6 && "manual"@[0] == 'm' && "manual"@[1] == 'a');
    reveal_strlit("default");
    assert("default"@.len() == 7 && "default"@[0] == 'd' && "default"@[1] == 'e');
    reveal_strlit("accept-edits");
    assert("accept-edits"@.len() == 12 && "accept-edits"@[0] == 'a' && "accept-edits"@[1] == 'c');
    reveal_strlit("acceptedits");
    assert("acceptedits"@.len() == 11 && "acceptedits"@[0] == 'a' && "acceptedits"@[1] == 'c');
    reveal_strlit("plan");
    assert("plan"@.len() == 4 && "plan"@[0] == 'p' && "plan"@[1] == 'l');
    reveal_strlit("auto");
    assert("auto"@.len() == 4 && "auto"@[0] == 'a' && "auto"@[1] == 'u');
    reveal_strlit("bypass");
    assert("bypass"@.len() == 6 && "bypass"@[0] == 'b' && "bypass"@[1] == 'y');
    reveal_strlit("bypassPermissions");
    assert("bypassPermissions"@.len() == 17 && "bypassPermissions"@[0] == 'b' && "bypassPermissions"@[1] == 'y');
}

// ── Effort ─────────────────────────────────────────────────────────────────

/// How hard the model should think before answering.
#[derive(Debug, Clone, Copy, PartialEq, Eq, Structural)]
pub enum Effort {
    Low,
    Medium,
    High,
    Max,
}

impl Effort {
    pub const ALL: [Effort; 4] = [Effort::Low, Effort::Medium, Effort::High, Effort::Max];

    pub open spec fn label_of(self) -> Seq<char> {
        match self {
            Effort::Low => "low"@,
            Effort::Medium => "medium"@,
            Effort::High => "high"@,
            Effort::Max => "max"@,
        }
    }

    pub open spec fn badge_of(self) -> Seq<char> {
        match self {
            Effort::Low => "effort:low"@,
            Effort::Medium => "effort:medium"@,
            Effort::High => "effort:high"@,
            Effort::Max => "effort:max"@,
        }
    }

    pub open spec fn parse_label(s: Seq<char>) -> Option<Effort> {
        if s == "low"@ {
            Some(Effort::Low)
        } else if s == "medium"@ || s == "med"@ {
            Some(Effort::Medium)
        } else if s == "high"@ {
            Some(Effort::High)
        } else if s == "max"@ {
            Some(Effort::Max)
        } else {
            None
        }
    }

    pub open spec fn hint_of(self) -> Seq<char> {
        match self {
            Effort::Low => "Be concise. Give short, direct answers. Skip pleasantries."@,
            Effort::Medium => "Think carefully. Provide thorough but focused answers."@,
            Effort::High => "Reason step by step. Explore trade-offs, edge cases, and implications."@,
            Effort::Max => "Think deeply about this problem. Consider multiple approaches, verify each step of your reasoning, anticipate follow-up questions, and give the most complete, well-structured answer you can."@,
        }
    }

    pub fn label(&self) -> (r: &'static str)
        ensures
            r@ == self.label_of(),
    {
        match self {
            Effort::Low => "low",
            Effort::Medium => "medium",
            Effort::High => "high",
            Effort::Max => "max",
        }
    }

    pub fn badge(&self) -> (r: &'static str)
        ensures
            r@ == self.badge_of(),
    {
        match self {
            Effort::Low => "effort:low",
            Effort::Medium => "effort:medium",
            Effort::High => "effort:high",
            Effort::Max => "effort:max",
        }
    }

    pub fn from_label(s: &str) -> (r: Option<Effort>)
        ensures
            r == Effort::parse_label(s@),
    {
        let v = chars_of(s);
        if vec_is(&v, "low") {
            Some(Effort::Low)
        } else if vec_is(&v, "medium") || vec_is(&v, "med") {
            Some(Effort::Medium)
        } else if vec_is(&v, "high") {
            Some(Effort::High)
        } else if vec_is(&v, "max") {
            Some(Effort::Max)
        } else {
            None
        }
    }

    /// A short prompt prefix that hints the model how hard to think.
    pub fn system_hint(&self) -> (r: &'static str)
        ensures
            r@ == self.hint_of(),
    {
        match self {
            Effort::Low => "Be concise. Give short, direct answers. Skip pleasantries.",
            Effort::Medium => "Think carefully. Provide thorough but focused answers.",
            Effort::High => "Reason step by step. Explore trade-offs, edge cases, and implications.",
            Effort::Max => "Think deeply about this problem. Consider multiple approaches, verify each step of your reasoning, anticipate follow-up questions, and give the most complete, well-structured answer you can.",
        }
    }
}

/// Each effort level's label parses back to that level.
pub proof fn lemma_effort_label_round_trip(e: Effort)
    ensures
        Effort::parse_label(e.label_of()) == Some(e),
{
    reveal_strlit("low");
    assert("low"@.len() == 3 && "low"@[0] == 'l' && "low"@[1] == 'o');
    reveal_strlit("medium");
    assert("medium"@.len() == 6 && "medium"@[0] == 'm' && "medium"@[1] == 'e');
    reveal_strlit("med");
    assert("med"@.len() == 3 && "med"@[0] == 'm' && "med"@[1] == 'e');
    reveal_strlit("high");
    assert("high"@.len() == 4 && "high"@[0] == 'h' && "high"@[1] == 'i');
    reveal_strlit("max");
    assert("max"@.len() == 3 && "max"@[0] == 'm' && "max"@[1] == 'a');
}

} // verus!
